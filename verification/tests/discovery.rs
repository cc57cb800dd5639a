//! Searching for repositories.

use std::path::{Component, Path};

use herdr_tether::backend::ProcessBinaries;
use herdr_tether::discovery::{
    more_significant_completion, DiscoveryCompletion, DiscoveryLimits, DiscoveryLocation,
    DiscoveryMessage, DiscoveryRequest, DiscoveryRun, DiscoveryRunCompletion, DiscoveryService,
    EntryReservations, Publisher, MAX_DISCOVERY_ENTRIES, MAX_DISCOVERY_LOCATIONS,
    MAX_DISCOVERY_RESULTS, MAX_DISCOVERY_WORKERS,
};
use herdr_tether::discovery_remote::{
    parse_remote, remote_spec, safe_relative, scan_remote, RemoteOutput, SshDestination,
    REMOTE_SCAN_SCRIPT,
};
use herdr_tether::discovery_scan::{
    expand_local_root, retain_bounded_child, EntryKind, LocalScan, VisitStep,
};
use herdr_tether::path_order::{is_before, same_path};

fn limits() -> DiscoveryLimits {
    DiscoveryLimits {
        max_depth: 4,
        max_entries: 100,
        max_results: 10,
        timeout_nanos: 0,
        workers: 1,
    }
}

fn binaries() -> ProcessBinaries {
    ProcessBinaries::new("ssh".to_owned(), "tmux".to_owned())
}

fn location(host: &str) -> DiscoveryLocation {
    DiscoveryLocation { host: host.to_owned(), target: None, roots: vec!["/srv".to_owned()] }
}

#[test]
fn configured_work_limits_have_internal_ceilings() {
    let limits = DiscoveryLimits {
        max_depth: 1,
        max_entries: usize::MAX,
        max_results: usize::MAX,
        timeout_nanos: 1_000_000_000,
        workers: usize::MAX,
    };
    let service = DiscoveryService::new(binaries(), limits);
    assert_eq!(service.limits().workers, MAX_DISCOVERY_WORKERS);
    assert_eq!(service.limits().max_entries, MAX_DISCOVERY_ENTRIES);
    assert_eq!(service.limits().max_results, MAX_DISCOVERY_RESULTS);
}

#[test]
fn large_directory_candidates_retain_only_the_lexically_first_entry_budget() {
    let mut children = Vec::new();
    for index in (0..10_000).rev() {
        retain_bounded_child(&mut children, format!("{index:05}"), 3);
    }
    children.sort();
    assert_eq!(children, ["00000", "00001", "00002"]);
}

#[test]
fn expired_local_scan_stops_before_touching_the_filesystem() {
    let now = 7;
    let mut scan = LocalScan::new(limits(), 100, now);

    assert!(!scan.enter(false, now), "nothing is looked at");

    assert_eq!(scan.entries, 0);
    assert_eq!(scan.completion, DiscoveryCompletion::TimedOut);
}

#[test]
fn malformed_remote_records_fail_closed_without_a_process_harness() {
    let roots = vec!["/safe".to_owned()];
    let cases: [&[u8]; 4] = [
        b"R\x000\x00../escape\x00",
        b"R\x000\x00/etc\x00",
        b"R\x001\x00repo\x00",
        b"R\x000\x00repo",
    ];

    for output in cases {
        assert_eq!(
            parse_remote(&output.to_vec(), &roots, 10),
            (Vec::new(), DiscoveryCompletion::Malformed)
        );
    }
}

#[test]
fn remote_records_name_repositories_below_their_roots() {
    let roots = vec!["/safe".to_owned(), "~/src".to_owned()];
    let (found, completion) =
        parse_remote(&b"R\x000\x00app\x00R\x001\x00\x00".to_vec(), &roots, 10);
    assert_eq!(found, ["/safe/app", "~/src"]);
    assert_eq!(completion, DiscoveryCompletion::Complete);
    assert_eq!(
        parse_remote(&b"R\x000\x00app\x00L\x00".to_vec(), &roots, 10).1,
        DiscoveryCompletion::ResultsLimit
    );
    assert_eq!(
        parse_remote(&b"N\x00".to_vec(), &roots, 10).1,
        DiscoveryCompletion::EntriesLimit
    );
    assert_eq!(parse_remote(&Vec::new(), &roots, 10), (Vec::new(), DiscoveryCompletion::Complete));
}

#[test]
fn relative_paths_stay_where_they_are() {
    for safe in ["", "a", "a/b", "./a", "..a"] {
        assert!(safe_relative(safe), "{safe}");
    }
    for unsafe_path in ["/a", "..", "a/..", "../a"] {
        assert!(!safe_relative(unsafe_path), "{unsafe_path}");
    }
}

#[test]
fn relative_paths_are_judged_as_the_standard_library_does() {
    let pieces = ["", ".", "..", "a", "..b", "/"];
    for first in pieces {
        for second in pieces {
            for third in pieces {
                let path = format!("{first}/{second}{third}");
                let expected = path.is_empty()
                    || Path::new(&path)
                        .components()
                        .all(|part| matches!(part, Component::Normal(_) | Component::CurDir));
                assert_eq!(safe_relative(&path), expected, "{path}");
            }
        }
    }
}

#[test]
fn the_end_of_a_script_says_how_a_search_ended() {
    let roots = vec!["/safe".to_owned()];
    let ended = |success: bool, code: Option<i32>, truncated: bool| RemoteOutput::Completed {
        success,
        code,
        stdout: Vec::new(),
        stdout_truncated: truncated,
    };
    let completion = |output: RemoteOutput| scan_remote(&output, &roots, 10).map(|found| found.1);
    assert_eq!(completion(RemoteOutput::Cancelled), None);
    assert_eq!(completion(RemoteOutput::TimedOut), Some(DiscoveryCompletion::TimedOut));
    assert_eq!(completion(RemoteOutput::Error), Some(DiscoveryCompletion::Error));
    assert_eq!(completion(ended(true, Some(0), false)), Some(DiscoveryCompletion::Complete));
    assert_eq!(completion(ended(true, Some(0), true)), Some(DiscoveryCompletion::OutputLimit));
    assert_eq!(completion(ended(false, Some(255), false)), Some(DiscoveryCompletion::Unavailable));
    assert_eq!(completion(ended(false, Some(1), false)), Some(DiscoveryCompletion::Error));
}

#[test]
fn another_machine_is_searched_by_one_quoted_script() {
    let target = SshDestination { destination: "build.example".to_owned(), port: Some(2222) };
    let command = remote_spec(
        &target,
        &vec!["/it's here".to_owned()],
        &binaries(),
        limits(),
        25,
        &vec!["-o".to_owned(), "BatchMode=yes".to_owned()],
    )
    .unwrap();
    assert_eq!(command.program, "ssh");
    assert_eq!(
        command.args[..6],
        ["-o", "BatchMode=yes", "-p", "2222", "--", "build.example"]
    );
    let line = &command.args[6];
    assert!(line.starts_with("'/bin/sh' '-c' "));
    assert!(line.ends_with(r"'tether-discovery' '4' '10' '25' '/it'\''s here'"));
    assert!(REMOTE_SCAN_SCRIPT.contains("entry_limit=$3"));
}

#[test]
fn a_search_that_is_too_large_is_not_begun() {
    let service = DiscoveryService::new(binaries(), limits());
    let small = DiscoveryRequest { generation: 3, locations: vec![location("a"), location("b")] };
    let start = service.start(small, 5).unwrap();
    assert_eq!((start.generation, start.worker_count, start.deadline_nanos), (3, 1, 5));
    let many = (0..=MAX_DISCOVERY_LOCATIONS).map(|_| location("a")).collect();
    assert!(service.start(DiscoveryRequest { generation: 4, locations: many }, 5).is_none());
}

#[test]
fn the_entries_are_shared_out_whole() {
    let mut reservations = EntryReservations::new(10);
    let shares: Vec<usize> = (1..=3).rev().map(|jobs| reservations.reserve(jobs)).collect();
    assert_eq!(shares.iter().sum::<usize>(), 10);
    assert_eq!(shares, [4, 3, 3]);

    let service = DiscoveryService::new(binaries(), limits());
    let request = DiscoveryRequest { generation: 1, locations: vec![location("a"), location("b")] };
    let mut queue = service.start(request, 0).unwrap().queue;
    assert_eq!(queue.pop().map(|job| (job.0.host, job.1)), Some(("a".to_owned(), 50)));
    assert_eq!(queue.pop().map(|job| (job.0.host, job.1)), Some(("b".to_owned(), 50)));
    assert!(queue.pop().is_none());
}

#[test]
fn the_weightiest_completion_stands_in_either_order() {
    let all = [
        DiscoveryCompletion::Complete,
        DiscoveryCompletion::ResultsLimit,
        DiscoveryCompletion::EntriesLimit,
        DiscoveryCompletion::TimedOut,
        DiscoveryCompletion::Unavailable,
        DiscoveryCompletion::OutputLimit,
        DiscoveryCompletion::Malformed,
        DiscoveryCompletion::Error,
    ];
    for first in all {
        for second in all {
            let start = DiscoveryRunCompletion::Complete;
            let one = more_significant_completion(
                more_significant_completion(start, first),
                second,
            );
            let other = more_significant_completion(
                more_significant_completion(start, second),
                first,
            );
            assert_eq!(one, other);
        }
    }
}

#[test]
fn results_beyond_the_limit_are_not_made_known() {
    let mut publisher = Publisher::new(1, 1);
    let repository = |path: &str| DiscoveryMessage::Repository {
        generation: 1,
        host: "local".to_owned(),
        path: path.to_owned(),
    };
    assert_eq!(publisher.publish(repository("/a")), Some(repository("/a")));
    assert_eq!(publisher.location_ended(), None);
    assert_eq!(publisher.publish(repository("/b")), None);
    assert_eq!(publisher.location_ended(), Some(DiscoveryRunCompletion::ResultsLimit));
}

#[test]
fn the_first_end_of_a_search_stays() {
    let mut run = DiscoveryRun::new(true);
    assert_eq!(run.completion(), None);
    run.cancel();
    run.finish(DiscoveryRunCompletion::Complete);
    assert_eq!(run.completion(), Some(DiscoveryRunCompletion::Cancelled));
    assert_eq!(DiscoveryRun::new(false).completion(), Some(DiscoveryRunCompletion::Error));
}

#[test]
fn a_local_search_reports_each_repository_once() {
    let mut scan = LocalScan::new(limits(), 100, 10);
    assert!(scan.enter(false, 1));
    let visit = |scan: &mut LocalScan, kind: EntryKind, depth: usize| {
        scan.visit(kind, "/home/me/src/app", "~/src", "app", depth)
    };
    assert_eq!(visit(&mut scan, EntryKind::Other, 1), VisitStep::Skip);
    assert_eq!(visit(&mut scan, EntryKind::Directory, 4), VisitStep::Skip);
    assert_eq!(visit(&mut scan, EntryKind::Directory, 1), VisitStep::Descend(99));
    assert_eq!(
        visit(&mut scan, EntryKind::Repository, 1),
        VisitStep::Report("~/src/app".to_owned())
    );
    assert_eq!(visit(&mut scan, EntryKind::Repository, 1), VisitStep::Skip);
    scan.child_failed(true);
    assert_eq!(scan.completion, DiscoveryCompletion::Complete);
    scan.child_failed(false);
    assert_eq!(scan.completion, DiscoveryCompletion::Error);
    assert!(scan.root_failed(false));
}

#[test]
fn roots_below_the_home_directory_are_expanded() {
    assert_eq!(expand_local_root("~", Some("/home/me")), "/home/me");
    assert_eq!(expand_local_root("~/src", Some("/home/me")), "/home/me/src");
    assert_eq!(expand_local_root("~other/src", Some("/home/me")), "~other/src");
    assert_eq!(expand_local_root("~/src", None), "~/src");
    assert_eq!(expand_local_root("/srv", Some("/home/me")), "/srv");
    assert_eq!(expand_local_root("~//e", Some("/h")), "/e", "an absolute path is not joined");
}

#[test]
fn paths_are_ordered_and_told_apart_by_their_components() {
    let paths = [
        "", "a", "ab", "b", "é", "Z", "a\u{10000}", "a\u{ffff}", "a/b", "a-b", "a//b", "a/./b",
        "./a", ".", "..", "../a", "/", "//", "/a", "/a/", "/a/b", "/a-b", "a/..", "-x", "/./a",
    ];
    for one in paths {
        for other in paths {
            let (left, right) = (Path::new(one), Path::new(other));
            assert_eq!(is_before(one, other), left < right, "{one:?} {other:?}");
            assert_eq!(same_path(one, other), left == right, "{one:?} {other:?}");
        }
    }
    assert!(is_before("a/b", "a-b"));
}

#[test]
fn a_repository_is_reported_once_however_its_root_is_written() {
    let mut scan = LocalScan::new(limits(), 100, 10);
    assert_eq!(
        scan.visit(EntryKind::Repository, "/s/c", "/s/c", "", 0),
        VisitStep::Report("/s/c".to_owned())
    );
    assert_eq!(scan.visit(EntryKind::Repository, "/s//c", "/s//c", "", 0), VisitStep::Skip);
    assert_eq!(scan.visit(EntryKind::Repository, "/s/c/", "/s/c/", "", 0), VisitStep::Skip);
}
