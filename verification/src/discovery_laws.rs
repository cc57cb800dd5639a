//! What a search looks at, what it makes known, and how it ends.

use vstd::prelude::*;
use vstd::string::*;
use vstd::utf8::*;

use crate::discovery::{
    admitted, bounded_limits, deadline_for, priority, root_count, run_completion, share, weightier,
    worker_count_for, DiscoveryCompletion, DiscoveryLimits, DiscoveryLocation,
    DiscoveryRunCompletion, MessageView, Publisher,
};
use crate::discovery_remote::{
    below_root, read_fields, remote_findings, remote_outcome, remote_scan, root_index, safe_below,
    ssh_arguments, zero_parts, RemoteOutput, RemoteView, REMOTE_SCAN_SCRIPT,
};
use crate::discovery_scan::{expanded_root, EntryKind, ScanView, VisitView};
use crate::fields::number_of;
use crate::pane_title::without_end_slashes;
use crate::path_order::components;
use crate::text::numeral;
use crate::text_laws::{names_stand_below_their_directory, prefixes_are_taken_off};

verus! {

/// The children of a plain directory are looked at exactly if it stands less
/// deep than the search goes, and as many of them as entries remain. Nothing
/// else is descended into.
pub proof fn directories_are_searched_to_the_full_depth(
    scan: ScanView,
    kind: EntryKind,
    path: Seq<char>,
    display_root: Seq<char>,
    relative: Seq<char>,
    depth: int,
)
    ensures
        ({
            let step = scan.step(kind, path, display_root, relative, depth);
            &&& step is Descend <==> kind == EntryKind::Directory && depth < scan.max_depth
            &&& kind == EntryKind::Directory && depth >= scan.max_depth ==> step is Skip
            &&& scan.entries <= scan.entry_limit ==> (step matches VisitView::Descend(children)
                ==> children == scan.entry_limit - scan.entries)
            &&& scan.entries > scan.entry_limit ==> (step matches VisitView::Descend(children)
                ==> children == 0)
            &&& kind == EntryKind::Other ==> step is Skip
            &&& kind != EntryKind::Repository ==> scan.visited(kind, path) == scan
        }),
{
}

/// A repository is made known exactly if no path with the same components was
/// met before and there is room for it, however deep it stands. It is made known
/// as the root is shown, with its place below the root behind it.
pub proof fn new_repositories_are_made_known(
    scan: ScanView,
    path: Seq<char>,
    display_root: Seq<char>,
    relative: Seq<char>,
    depth: int,
)
    ensures
        ({
            let known = exists|i: int|
                0 <= i < scan.seen.len() && components(#[trigger] scan.seen[i]) == components(path);
            let step = scan.step(EntryKind::Repository, path, display_root, relative, depth);
            let next = scan.visited(EntryKind::Repository, path);
            &&& step is Report <==> !known && scan.results < scan.max_results
            &&& step is Report || step is Skip
            &&& step matches VisitView::Report(shown) ==> {
                &&& relative.len() == 0 ==> shown == display_root
                &&& relative.len() > 0 && display_root.len() > 0 && display_root.last() != '/'
                    ==> shown == display_root.push('/') + relative
                &&& relative.len() > 0 && (display_root.len() == 0 || display_root.last() == '/')
                    ==> shown == display_root + relative
            }
            &&& known ==> next == scan
            &&& !known ==> {
                &&& next.seen == scan.seen.push(path)
                &&& next.entries == scan.entries
                &&& next.entry_limit == scan.entry_limit
                &&& next.max_results == scan.max_results
                &&& next.max_depth == scan.max_depth
                &&& next.deadline_nanos == scan.deadline_nanos
            }
            &&& step is Report ==> next.results == scan.results + 1 && next.completion
                == scan.completion
            &&& !known && step is Skip ==> next.results == scan.results && next.completion
                == DiscoveryCompletion::ResultsLimit
        }),
{
    names_stand_below_their_directory(display_root, relative);
    if display_root.len() == 0 {
        assert(display_root + relative =~= relative);
    }
}

/// A search goes on exactly while nobody cancelled it, there is room for results,
/// its time is not over and entries remain. Why it stops is noted.
pub proof fn searches_stop_at_their_bounds(scan: ScanView, cancelled: bool, now_nanos: u64)
    ensures
        scan.stops(cancelled, now_nanos) <==> (cancelled || scan.completion
            == DiscoveryCompletion::ResultsLimit || now_nanos >= scan.deadline_nanos
            || scan.entries >= scan.entry_limit),
        ({
            let next = scan.asked(cancelled, now_nanos);
            &&& next.entries == scan.entries
            &&& next.entry_limit == scan.entry_limit
            &&& next.results == scan.results
            &&& next.max_results == scan.max_results
            &&& next.max_depth == scan.max_depth
            &&& next.deadline_nanos == scan.deadline_nanos
            &&& next.seen == scan.seen
            &&& !scan.stops(cancelled, now_nanos) || cancelled || scan.completion
                == DiscoveryCompletion::ResultsLimit ==> next.completion == scan.completion
            &&& !cancelled && scan.completion != DiscoveryCompletion::ResultsLimit && now_nanos
                >= scan.deadline_nanos ==> next.completion == DiscoveryCompletion::TimedOut
            &&& !cancelled && scan.completion != DiscoveryCompletion::ResultsLimit && now_nanos
                < scan.deadline_nanos && scan.entries >= scan.entry_limit ==> next.completion
                == DiscoveryCompletion::EntriesLimit
        }),
{
}

/// A root stands for itself, but for a tilde: that stands for the home directory,
/// alone or with what stands behind it.
pub proof fn a_tilde_stands_for_the_home_directory(
    root: Seq<char>,
    home: Seq<char>,
    rest: Seq<char>,
)
    requires
        rest.len() > 0,
        rest[0] != '/',
        home.len() > 0,
        home.last() != '/',
    ensures
        expanded_root(root, None) == root,
        expanded_root(seq!['~'], Some(home)) == home,
        expanded_root(seq!['~', '/'] + rest, Some(home)) == home.push('/') + rest,
        root.len() == 0 || root[0] != '~' ==> expanded_root(root, Some(home)) == root,
{
    reveal_strlit("~");
    reveal_strlit("~/");
    assert("~"@ =~= seq!['~']);
    assert("~/"@ =~= seq!['~', '/']);
    let below = seq!['~', '/'] + rest;
    assert(below.len() > 1);
    prefixes_are_taken_off(seq!['~', '/'], rest, root);
    names_stand_below_their_directory(home, rest);
    assert(below != seq!['~']);
    if root.len() == 0 || root[0] != '~' {
        if root == "~"@ {
            assert(root[0] == '~');
        }
        if "~/"@.is_prefix_of(root) {
            assert(root[0] == "~/"@[0]);
        }
    }
}

/// Whatever was configured, at least one and no more than 16 work on a search,
/// which looks at 1 to 100,000 entries and makes 1 to 4,096 results known. What
/// lies between is kept, and so are the depth and the time.
pub proof fn limits_stay_within_their_ceilings(limits: DiscoveryLimits)
    ensures
        ({
            let kept = bounded_limits(limits);
            &&& 1 <= kept.workers <= 16
            &&& 1 <= kept.max_entries <= 100_000
            &&& 1 <= kept.max_results <= 4_096
            &&& 1 <= limits.workers <= 16 ==> kept.workers == limits.workers
            &&& 1 <= limits.max_entries <= 100_000 ==> kept.max_entries == limits.max_entries
            &&& 1 <= limits.max_results <= 4_096 ==> kept.max_results == limits.max_results
            &&& limits.workers > 16 ==> kept.workers == 16
            &&& limits.max_entries > 100_000 ==> kept.max_entries == 100_000
            &&& limits.max_results > 4_096 ==> kept.max_results == 4_096
            &&& kept.max_depth == limits.max_depth
            &&& kept.timeout_nanos == limits.timeout_nanos
        }),
{
}

/// A search is made exactly if it has no more than 256 locations with no more
/// than 256 roots in all.
pub proof fn small_searches_are_made(
    locations: Seq<DiscoveryLocation>,
    location: DiscoveryLocation,
)
    ensures
        admitted(locations) <==> locations.len() <= 256 && root_count(locations) <= 256,
        root_count(Seq::<DiscoveryLocation>::empty()) == 0,
        root_count(locations.push(location)) == root_count(locations) + location.roots@.len(),
{
    assert(locations.push(location).drop_last() =~= locations);
}

/// As many work on a search as it has locations, at least one, and no more than
/// allowed. It ends when its time is over; a time that cannot be told is over at
/// once.
pub proof fn workers_and_deadline(workers: usize, locations: nat, now: u64, timeout: u64)
    requires
        workers > 0,
    ensures
        1 <= worker_count_for(workers, locations) <= workers,
        locations > 0 ==> worker_count_for(workers, locations) <= locations,
        worker_count_for(workers, locations) == workers || worker_count_for(workers, locations)
            == if locations == 0 {
            1int
        } else {
            locations as int
        },
        now + timeout <= u64::MAX ==> deadline_for(now, timeout) == now + timeout,
        now + timeout > u64::MAX ==> deadline_for(now, timeout) == now,
{
}

/// A share is what is left, divided among the jobs that are left and rounded up.
pub proof fn shares_are_even(remaining: int, jobs: int)
    requires
        remaining >= 0,
        jobs > 0,
    ensures
        remaining <= share(remaining, jobs) * jobs,
        share(remaining, jobs) * jobs < remaining + jobs,
{
    vstd::arithmetic::div_mod::lemma_fundamental_div_mod(remaining + jobs - 1, jobs);
    vstd::arithmetic::div_mod::lemma_mod_bound(remaining + jobs - 1, jobs);
    let q = share(remaining, jobs);
    assert(jobs * q == q * jobs) by (nonlinear_arith);
}

/// Each end of a location is an end of the search of the same name. A
/// cancellation weighs most, and then the time, the limits on results, entries
/// and output, errors, malformed output and unavailable hosts; that a location
/// was complete weighs least. The weightiest end is the end of the search.
pub proof fn the_weightiest_end_counts(
    current: DiscoveryRunCompletion,
    completion: DiscoveryCompletion,
)
    ensures
        priority(DiscoveryRunCompletion::Complete) < priority(DiscoveryRunCompletion::Unavailable),
        priority(DiscoveryRunCompletion::Unavailable) < priority(DiscoveryRunCompletion::Malformed),
        priority(DiscoveryRunCompletion::Malformed) < priority(DiscoveryRunCompletion::Error),
        priority(DiscoveryRunCompletion::Error) < priority(DiscoveryRunCompletion::OutputLimit),
        priority(DiscoveryRunCompletion::OutputLimit) < priority(
            DiscoveryRunCompletion::EntriesLimit,
        ),
        priority(DiscoveryRunCompletion::EntriesLimit) < priority(
            DiscoveryRunCompletion::ResultsLimit,
        ),
        priority(DiscoveryRunCompletion::ResultsLimit) < priority(DiscoveryRunCompletion::TimedOut),
        priority(DiscoveryRunCompletion::TimedOut) < priority(DiscoveryRunCompletion::Cancelled),
        completion is Complete <==> run_completion(completion) is Complete,
        completion is ResultsLimit <==> run_completion(completion) is ResultsLimit,
        completion is EntriesLimit <==> run_completion(completion) is EntriesLimit,
        completion is TimedOut <==> run_completion(completion) is TimedOut,
        completion is Unavailable <==> run_completion(completion) is Unavailable,
        completion is OutputLimit <==> run_completion(completion) is OutputLimit,
        completion is Malformed <==> run_completion(completion) is Malformed,
        completion is Error <==> run_completion(completion) is Error,
        weightier(current, completion) == current || weightier(current, completion)
            == run_completion(completion),
        priority(weightier(current, completion)) >= priority(current),
        priority(weightier(current, completion)) >= priority(run_completion(completion)),
{
}

/// Repositories are made known as they come until there are as many as allowed.
/// A location that had more ended at the limit on results, and the end of a
/// location counts for the search. Everything else is made known as it comes.
pub proof fn findings_are_made_known_up_to_the_limit(
    publisher: Publisher,
    generation: u64,
    host: Seq<char>,
    path: Seq<char>,
    completion: DiscoveryCompletion,
)
    requires
        publisher.well_formed(),
    ensures
        ({
            let found = MessageView::Repository { generation, host, path };
            let ended = MessageView::HostFinished { generation, host, completion };
            let failed = MessageView::RootError { generation, host, root: path };
            let over = MessageView::Finished { generation };
            let room = publisher.published < publisher.max_results;
            &&& publisher.shown(found) == if room {
                Some(found)
            } else {
                None
            }
            &&& publisher.after(found).published == if room {
                publisher.published + 1
            } else {
                publisher.published as int
            }
            &&& publisher.after(found).exceeded == (publisher.exceeded || !room)
            &&& publisher.after(found).overall == publisher.overall
            &&& publisher.after(found).max_results == publisher.max_results
            &&& publisher.after(found).generation == publisher.generation
            &&& publisher.shown(ended) == Some(
                MessageView::HostFinished {
                    generation: publisher.generation,
                    host,
                    completion: if publisher.exceeded {
                        DiscoveryCompletion::ResultsLimit
                    } else {
                        completion
                    },
                },
            )
            &&& publisher.after(ended).overall == weightier(
                publisher.overall,
                if publisher.exceeded {
                    DiscoveryCompletion::ResultsLimit
                } else {
                    completion
                },
            )
            &&& publisher.after(ended).published == publisher.published
            &&& publisher.after(ended).exceeded == publisher.exceeded
            &&& publisher.after(ended).max_results == publisher.max_results
            &&& publisher.shown(failed) == Some(failed)
            &&& publisher.after(failed) == publisher
            &&& publisher.shown(over) == Some(over)
            &&& publisher.after(over) == publisher
        }),
{
}

/// Bytes are cut at zeros exactly where the zeros stand: what stands before one
/// and what stands behind it are cut each for itself, and bytes without zeros
/// are one part.
pub proof fn bytes_are_cut_at_zeros(a: Seq<u8>, b: Seq<u8>)
    ensures
        zero_parts(a + seq![0u8] + b) == zero_parts(a) + zero_parts(b),
        zero_parts(a).len() > 0,
        !a.contains(0u8) ==> zero_parts(a) == seq![a],
    decreases b.len(),
{
    lemma_zero_parts(a);
    lemma_zero_parts(b);
    let whole = a + seq![0u8] + b;
    if b.len() == 0 {
        assert(whole.drop_last() =~= a);
        assert(zero_parts(b) =~= seq![Seq::empty()]);
        assert(zero_parts(a).push(Seq::empty()) =~= zero_parts(a) + zero_parts(b));
    } else {
        let rest = b.drop_last();
        bytes_are_cut_at_zeros(a, rest);
        lemma_zero_parts(rest);
        assert(whole.drop_last() =~= a + seq![0u8] + rest);
        let front = zero_parts(a) + zero_parts(rest);
        let tail = zero_parts(rest);
        assert(front.last() == tail.last());
        if b.last() == 0u8 {
            assert(front.push(Seq::empty()) =~= zero_parts(a) + tail.push(Seq::empty()));
        } else {
            assert(front.drop_last().push(front.last().push(b.last())) =~= zero_parts(a)
                + tail.drop_last().push(tail.last().push(b.last())));
        }
    }
}

/// Bytes have parts, and are one part where no zero stands in them.
proof fn lemma_zero_parts(bytes: Seq<u8>)
    ensures
        zero_parts(bytes).len() > 0,
        !bytes.contains(0u8) ==> zero_parts(bytes) == seq![bytes],
    decreases bytes.len(),
{
    if bytes.len() > 0 {
        let front = bytes.drop_last();
        lemma_zero_parts(front);
        if !bytes.contains(0u8) {
            assert(!front.contains(0u8)) by {
                if front.contains(0u8) {
                    let k = choose|k: int| 0 <= k < front.len() && front[k] == 0u8;
                    assert(bytes[k] == 0u8);
                }
            }
            assert(bytes.last() != 0u8) by {
                assert(bytes[bytes.len() - 1] == bytes.last());
            }
            assert(front.push(bytes.last()) =~= bytes);
            assert(zero_parts(bytes) =~= seq![bytes]);
        }
    } else {
        assert(bytes =~= Seq::empty());
    }
}

/// A repository that another machine names below a root is made known below that
/// root, once, and the rest is read on; where there is no room left the search
/// ended at the limit on results.
pub proof fn named_repositories_are_made_known(
    rest: Seq<Seq<u8>>,
    roots: Seq<Seq<char>>,
    known: RemoteView,
    max_results: int,
    index: Seq<u8>,
    at: int,
    relative: Seq<u8>,
)
    requires
        root_index(index, roots.len()) == Some(at),
        valid_utf8(relative),
        safe_below(decode_utf8(relative)),
    ensures
        ({
            let fields = seq![seq![82u8], index, relative] + rest;
            let path = below_root(roots[at], decode_utf8(relative));
            let read = read_fields(fields, roots, known, max_results);
            &&& known.repositories.contains(path) ==> read == read_fields(
                rest,
                roots,
                known,
                max_results,
            )
            &&& !known.repositories.contains(path) && known.repositories.len() < max_results
                ==> read == read_fields(
                rest,
                roots,
                RemoteView {
                    repositories: known.repositories.push(path),
                    had_error: known.had_error,
                },
                max_results,
            )
            &&& !known.repositories.contains(path) && known.repositories.len() >= max_results
                ==> read == (known.repositories, DiscoveryCompletion::ResultsLimit)
        }),
{
    let fields = seq![seq![82u8], index, relative] + rest;
    assert(fields[0] =~= seq![82u8]);
    assert(fields.skip(3) =~= rest);
}

/// A root that cannot be searched, and a path that is no text, make the search end
/// in an error, with everything else made known.
pub proof fn errors_do_not_hide_repositories(
    rest: Seq<Seq<u8>>,
    roots: Seq<Seq<char>>,
    known: RemoteView,
    max_results: int,
    index: Seq<u8>,
    broken: Seq<u8>,
)
    requires
        root_index(index, roots.len()) is Some,
        !valid_utf8(broken),
    ensures
        ({
            let after = read_fields(
                rest,
                roots,
                RemoteView { repositories: known.repositories, had_error: true },
                max_results,
            );
            &&& read_fields(seq![seq![69u8], index] + rest, roots, known, max_results) == after
            &&& read_fields(seq![seq![82u8], index, broken] + rest, roots, known, max_results)
                == after
        }),
        read_fields(Seq::empty(), roots, known, max_results) == (
            known.repositories,
            if known.had_error {
                DiscoveryCompletion::Error
            } else {
                DiscoveryCompletion::Complete
            },
        ),
        read_fields(seq![seq![76u8]], roots, known, max_results) == (
            known.repositories,
            DiscoveryCompletion::ResultsLimit,
        ),
        read_fields(seq![seq![78u8]], roots, known, max_results) == (
            known.repositories,
            DiscoveryCompletion::EntriesLimit,
        ),
{
    let failed = seq![seq![69u8], index] + rest;
    let unread = seq![seq![82u8], index, broken] + rest;
    assert(failed.skip(2) =~= rest);
    assert(unread.skip(3) =~= rest);
    assert(seq![69u8] != seq![82u8]) by {
        assert(seq![69u8][0] != seq![82u8][0]);
    }
    assert(seq![76u8] != seq![82u8] && seq![76u8] != seq![69u8]) by {
        assert(seq![76u8][0] != seq![82u8][0] && seq![76u8][0] != seq![69u8][0]);
    }
    assert(seq![78u8] != seq![82u8] && seq![78u8] != seq![69u8] && seq![78u8] != seq![76u8]) by {
        assert(seq![78u8][0] != seq![82u8][0] && seq![78u8][0] != seq![69u8][0]);
        assert(seq![78u8][0] != seq![76u8][0]);
    }
    assert(failed[0] == seq![69u8] && unread[0] == seq![82u8]);
}

/// Nothing is believed of output that names a root that was not asked for or a
/// path that leads out of its root, that is cut off, or that says something
/// else.
pub proof fn strange_output_is_not_believed(
    rest: Seq<Seq<u8>>,
    roots: Seq<Seq<char>>,
    known: RemoteView,
    max_results: int,
    index: Seq<u8>,
    relative: Seq<u8>,
    stdout: Seq<u8>,
)
    ensures
        root_index(index, roots.len()) is None || (valid_utf8(relative) && !safe_below(
            decode_utf8(relative),
        )) ==> read_fields(
            seq![seq![82u8], index, relative] + rest,
            roots,
            known,
            max_results,
        ) == (Seq::<Seq<char>>::empty(), DiscoveryCompletion::Malformed),
        stdout.len() > 0 && stdout.last() != 0u8 ==> remote_findings(stdout, roots, max_results)
            == (Seq::<Seq<char>>::empty(), DiscoveryCompletion::Malformed),
        stdout.len() == 0 ==> remote_findings(stdout, roots, max_results) == (
            Seq::<Seq<char>>::empty(),
            DiscoveryCompletion::Complete,
        ),
        stdout.len() > 0 && stdout.last() == 0u8 ==> remote_findings(stdout, roots, max_results)
            == read_fields(
            zero_parts(stdout.drop_last()),
            roots,
            RemoteView { repositories: Seq::empty(), had_error: false },
            max_results,
        ),
{
    let fields = seq![seq![82u8], index, relative] + rest;
    assert(fields[0] == seq![82u8] && fields[1] == index && fields[2] == relative);
}

/// A path leads below where it starts exactly if it does not start at the root
/// and none of its parts leads up; it then stands behind the root and a slash.
pub proof fn paths_below_a_root(root: Seq<char>, relative: Seq<char>)
    requires
        root.len() > 0,
        root.last() != '/',
    ensures
        safe_below(relative) <==> (relative.len() == 0 || relative[0] != '/')
            && !crate::fields::parts_between(relative, '/').contains(seq!['.', '.']),
        relative.len() == 0 ==> below_root(root, relative) == root,
        relative.len() > 0 ==> below_root(root, relative) == root.push('/') + relative,
        relative.len() > 0 ==> below_root(root.push('/'), relative) == root.push('/') + relative,
{
    reveal_strlit("..");
    reveal_strlit("/");
    assert(".."@ =~= seq!['.', '.']);
    assert("/"@ =~= seq!['/']);
    assert(root.push('/').drop_last() =~= root);
    assert(root + "/"@ =~= root.push('/'));
    reveal_with_fuel(without_end_slashes, 3);
    assert(without_end_slashes(root.push('/')) == root);
}

/// A field names a root exactly if it is the number of one, counted from zero.
pub proof fn roots_are_named_by_number(part: Seq<u8>, roots: nat, at: int)
    ensures
        root_index(part, roots) == Some(at) <==> valid_utf8(part) && number_of(decode_utf8(part))
            is Some && number_of(decode_utf8(part))->0 == at && 0 <= at < roots,
{
}

/// What a script printed is believed only if it ended well and nothing of it was
/// cut off. Otherwise nothing is known but how it ended.
pub proof fn only_whole_output_is_read(
    success: bool,
    code: Option<i32>,
    stdout: Vec<u8>,
    cut: bool,
    roots: Seq<Seq<char>>,
    max_results: int,
)
    ensures
        ({
            let output = RemoteOutput::Completed { success, code, stdout, stdout_truncated: cut };
            let r = remote_outcome(output, roots, max_results);
            &&& cut ==> r == Some((Seq::<Seq<char>>::empty(), DiscoveryCompletion::OutputLimit))
            &&& !cut && success ==> r == Some(remote_findings(stdout@, roots, max_results))
            &&& !cut && !success && code == Some(255i32) ==> r == Some(
                (Seq::<Seq<char>>::empty(), DiscoveryCompletion::Unavailable),
            )
            &&& !cut && !success && code != Some(255i32) ==> r == Some(
                (Seq::<Seq<char>>::empty(), DiscoveryCompletion::Error),
            )
        }),
        remote_outcome(RemoteOutput::Cancelled, roots, max_results) is None,
        remote_outcome(RemoteOutput::TimedOut, roots, max_results) == Some(
            (Seq::<Seq<char>>::empty(), DiscoveryCompletion::TimedOut),
        ),
        remote_outcome(RemoteOutput::Error, roots, max_results) == Some(
            (Seq::<Seq<char>>::empty(), DiscoveryCompletion::Error),
        ),
{
}

/// The script gets the depth, the results and the entries it is held to, in this
/// order, and then every root. OpenSSH gets its options, the port if there is
/// one, the destination and the command line, in this order.
pub proof fn scripts_get_their_bounds_and_roots(
    roots: Seq<Seq<char>>,
    limits: DiscoveryLimits,
    entry_limit: usize,
    connection: Seq<Seq<char>>,
    destination: Seq<char>,
    port: Option<u16>,
    line: Seq<char>,
)
    ensures
        ({
            let scan = remote_scan(roots, limits, entry_limit);
            &&& scan.program == "/bin/sh"@
            &&& scan.args.len() == 6 + roots.len()
            &&& scan.args[0] == "-c"@
            &&& scan.args[1] == REMOTE_SCAN_SCRIPT@
            &&& scan.args[3] == numeral(limits.max_depth as nat)
            &&& scan.args[4] == numeral(limits.max_results as nat)
            &&& scan.args[5] == numeral(entry_limit as nat)
            &&& scan.args.skip(6) == roots
        }),
        ({
            let args = ssh_arguments(connection, destination, port, line);
            let n = connection.len() as int;
            &&& args.take(n) == connection
            &&& args.last() == line
            &&& args[args.len() - 2] == destination
            &&& args[args.len() - 3] == "--"@
            &&& port is None ==> args.len() == n + 3
            &&& port matches Some(number) ==> args.len() == n + 5 && args[n] == "-p"@ && args[n + 1]
                == numeral(number as nat)
        }),
{
    assert(remote_scan(roots, limits, entry_limit).args.skip(6) =~= roots);
    let args = ssh_arguments(connection, destination, port, line);
    assert(args.take(connection.len() as int) =~= connection);
}

} // verus!
