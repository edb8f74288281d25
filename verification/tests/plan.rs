use hyper::Url;
use rangedl::dl::Download;
use rangedl::executor::segment_jobs;
use rangedl::plan::{get_download, plan_download};
use rangedl::probe::{CapabilityReport, ResponseHeaders};
use rangedl::range::ByteRange;

fn lines(items: &[&str]) -> Option<Vec<Vec<u8>>> {
    Some(items.iter().map(|item| item.as_bytes().to_vec()).collect())
}

fn file_url() -> Url {
    Url::parse("https://example.com/a/b/file.zip").unwrap()
}

fn ranged(length: &str) -> ResponseHeaders {
    ResponseHeaders {
        accept_ranges: lines(&["bytes"]),
        content_encoding: None,
        transfer_encoding: None,
        content_length: lines(&[length]),
    }
}

fn is_full(download: &Download) -> bool {
    matches!(download, Download::Full(_))
}

fn header(name: &str, value: &str) -> (String, String) {
    (name.to_string(), value.to_string())
}

#[test]
fn a_resource_with_ranges_is_fetched_in_segments() {
    let download = get_download(file_url(), None, 4, &ranged("1000"));
    assert_eq!(download.num_parts(), 4);
    let part = match download {
        Download::Partial(part) => part,
        Download::Full(_) => panic!("the plan is in one piece"),
    };
    let ranges = part.ranges();
    assert_eq!(
        ranges,
        vec![
            ByteRange::FromTo(0, 250),
            ByteRange::FromTo(251, 500),
            ByteRange::FromTo(501, 750),
            ByteRange::AllFrom(751),
        ]
    );
    assert_eq!(ranges.iter().map(|range| range.byte_count(1000)).sum::<u64>(), 1000);
    assert_eq!(part.url(), file_url());
    assert_eq!(part.url, file_url());
    assert_eq!(part.name("index.html"), "file.zip");

    let jobs = segment_jobs(&Download::Partial(part), "index.html");
    let destinations: Vec<&str> = jobs.iter().map(|job| job.destination.as_str()).collect();
    assert_eq!(
        destinations,
        vec!["file.zip.part1", "file.zip.part2", "file.zip.part3", "file.zip.part4"]
    );
    let values = ["bytes=0-250", "bytes=251-500", "bytes=501-750", "bytes=751-"];
    for (job, value) in jobs.iter().zip(values) {
        assert_eq!(
            job.request_headers(),
            vec![header("Accept-Encoding", "identity"), header("Range", value)]
        );
    }
    for (job, range) in jobs.iter().zip(ranges.iter()) {
        assert_eq!(job.url, file_url());
        assert_eq!(job.range, Some(*range));
    }
}

#[test]
fn encoded_content_is_fetched_in_one_piece() {
    let headers = ResponseHeaders { content_encoding: lines(&["gzip"]), ..ranged("1000") };
    let download = get_download(file_url(), None, 4, &headers);
    assert!(is_full(&download));
    assert_eq!(download.num_parts(), 1);
    let jobs = segment_jobs(&download, "index.html");
    assert_eq!(jobs.len(), 1);
    assert_eq!(jobs[0].destination, "file.zip");
    assert_eq!(jobs[0].range, None);
    assert_eq!(jobs[0].request_headers(), vec![header("Accept-Encoding", "identity")]);
    assert_eq!(jobs[0].url, file_url());
}

#[test]
fn a_chunked_transfer_is_fetched_in_one_piece() {
    let headers = ResponseHeaders { transfer_encoding: lines(&["chunked"]), ..ranged("1000") };
    assert!(is_full(&get_download(file_url(), None, 4, &headers)));
    let headers = ResponseHeaders { accept_ranges: None, ..headers };
    assert!(is_full(&get_download(file_url(), None, 4, &headers)));
    let headers = ResponseHeaders { transfer_encoding: lines(&["gzip, chunked"]), ..ranged("1000") };
    assert!(is_full(&get_download(file_url(), None, 4, &headers)));
}

#[test]
fn an_unknown_length_is_fetched_in_one_piece() {
    let headers = ResponseHeaders { content_length: None, ..ranged("1000") };
    assert!(is_full(&get_download(file_url(), None, 4, &headers)));
    let headers = ResponseHeaders { content_length: lines(&["many"]), ..ranged("1000") };
    assert!(is_full(&get_download(file_url(), None, 4, &headers)));
    let headers = ResponseHeaders { content_length: None, accept_ranges: None, ..ranged("1000") };
    assert!(is_full(&get_download(file_url(), None, 4, &headers)));
}

#[test]
fn a_server_without_ranges_is_asked_for_one_piece() {
    let headers = ResponseHeaders { accept_ranges: None, ..ranged("1000") };
    assert!(is_full(&get_download(file_url(), None, 4, &headers)));
    let headers = ResponseHeaders { accept_ranges: lines(&["none"]), ..ranged("1000") };
    assert!(is_full(&get_download(file_url(), None, 4, &headers)));
}

#[test]
fn an_empty_resource_is_fetched_in_one_piece() {
    let download = get_download(file_url(), None, 4, &ranged("0"));
    assert!(is_full(&download));
    assert_eq!(segment_jobs(&download, "index.html").len(), 1);
}

#[test]
fn identity_encodings_allow_segments() {
    let headers = ResponseHeaders {
        content_encoding: lines(&["identity"]),
        transfer_encoding: lines(&["identity"]),
        ..ranged("10")
    };
    match get_download(file_url(), None, 2, &headers) {
        Download::Partial(part) => {
            assert_eq!(part.ranges(), vec![ByteRange::FromTo(0, 5), ByteRange::AllFrom(6)])
        },
        Download::Full(_) => panic!("the plan is in one piece"),
    }
}

#[test]
fn the_plan_keeps_url_and_name() {
    let download = get_download(file_url(), Some("mine".to_string()), 3, &ranged("1000"));
    match download {
        Download::Partial(part) => {
            assert_eq!(part.url(), file_url());
            assert_eq!(part.name("index.html"), "mine");
            assert_eq!(part.ranges().len(), 3);
        },
        Download::Full(_) => panic!("the plan is in one piece"),
    }
    let headers = ResponseHeaders { accept_ranges: None, ..ranged("1000") };
    match get_download(file_url(), Some("mine".to_string()), 3, &headers) {
        Download::Full(full) => {
            assert_eq!(full.url(), file_url());
            assert_eq!(full.url, file_url());
            assert_eq!(full.name("index.html"), "mine");
        },
        Download::Partial(_) => panic!("the plan is in segments"),
    }
}

#[test]
fn the_plan_from_a_report() {
    let report = CapabilityReport {
        accepts_byte_ranges: true,
        identity_content_encoding: true,
        identity_transfer_encoding: true,
        content_length: Some(1000),
    };
    match plan_download(file_url(), None, 4, &report) {
        Download::Partial(part) => assert_eq!(part.ranges().len(), 4),
        Download::Full(_) => panic!("the plan is in one piece"),
    }
    let unknown = CapabilityReport { content_length: None, ..report };
    assert!(is_full(&plan_download(file_url(), None, 4, &unknown)));
    let chunked = CapabilityReport { identity_transfer_encoding: false, ..report };
    assert!(is_full(&plan_download(file_url(), None, 4, &chunked)));
    let encoded = CapabilityReport { identity_content_encoding: false, ..report };
    assert!(is_full(&plan_download(file_url(), None, 4, &encoded)));
    let no_ranges = CapabilityReport { accepts_byte_ranges: false, ..report };
    assert!(is_full(&plan_download(file_url(), None, 4, &no_ranges)));
    let empty = CapabilityReport { content_length: Some(0), ..report };
    assert!(is_full(&plan_download(file_url(), None, 4, &empty)));
}

#[test]
fn a_download_from_its_pieces() {
    let ranges = vec![ByteRange::FromTo(0, 9), ByteRange::AllFrom(10)];
    let download = Download::new(file_url(), None, Some(ranges.clone()));
    assert_eq!(download.num_parts(), 2);
    match download {
        Download::Partial(part) => {
            assert_eq!(part.ranges(), ranges);
            assert_eq!(part.clone().ranges(), ranges);
        },
        Download::Full(_) => panic!("the plan is in one piece"),
    }
    let download = Download::new(file_url(), None, Some(Vec::new()));
    assert_eq!(download.num_parts(), 0);
    assert!(!is_full(&download));
    assert!(segment_jobs(&download, "index.html").is_empty());
    let download = Download::new(file_url(), None, None);
    assert_eq!(download.num_parts(), 1);
    assert!(is_full(&download));
}
