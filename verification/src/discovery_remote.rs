//! The search of directories on another machine: the command that looks there,
//! and what its output says.

use vstd::prelude::*;
use vstd::string::*;
use vstd::utf8::*;

use crate::backend::{
    absolute, command_line, holds_nul, is_absolute, slash_parts, split_slashes, CommandSpec,
    CommandView, ProcessBinaries,
};
use crate::discovery::{DiscoveryCompletion, DiscoveryLimits};
use crate::fields::{number_of, parse_number};
use crate::pane_title::without_end_slashes;
use crate::quote::QuoteError;
use crate::text::{chars_of, decimal, decode, holds_text, numeral, text_between, views};

verus! {

/// The script that looks for repositories on another machine. It prints fields
/// that each end in NUL: `R` with the index of a root and a path below it, `E`
/// with the index of a root that cannot be searched, `L` where there are too
/// many results, and `N` where there are too many entries.
pub const REMOTE_SCAN_SCRIPT: &'static str = "max_depth=$1\nresult_limit=$2\nentry_limit=$3\nshift 3\nLC_ALL=C\nexport LC_ALL\nentries=0\nresults=0\nlisting_index=0\nstate_dir=${TMPDIR:-/tmp}/tether-discovery.$$\n(umask 077 && mkdir \"$state_dir\") || exit 1\ntrap 'rm -rf \"$state_dir\"' 0 1 2 3 15\n\nscan() {\n  if [ \"$entries\" -ge \"$entry_limit\" ]; then\n    printf 'N\\000'\n    exit 0\n  fi\n  entries=$((entries + 1))\n  if [ -L \"$1\" ] || [ ! -d \"$1\" ]; then\n    return\n  fi\n  if [ ! -L \"$1/.git\" ] && { [ -d \"$1/.git\" ] || [ -f \"$1/.git\" ]; }; then\n    if [ \"$results\" -ge \"$result_limit\" ]; then\n      printf 'L\\000'\n      exit 0\n    fi\n    printf 'R\\000%s\\000%s\\000' \"$4\" \"$3\"\n    results=$((results + 1))\n    return\n  fi\n  if [ \"$2\" -ge \"$max_depth\" ]; then\n    return\n  fi\n\n  remaining=$((entry_limit - entries))\n  listing_index=$((listing_index + 1))\n  listing=$state_dir/$listing_index\n  find_root=$1\n  case \"$find_root\" in -*) find_root=./$find_root ;; esac\n  find \"$find_root\" -mindepth 1 -maxdepth 1 -print |\n    head -n \"$((remaining + 1))\" |\n    sort > \"$listing\"\n  while IFS= read -r child; do\n    if [ ! -e \"$child\" ] && [ ! -L \"$child\" ]; then\n      continue\n    fi\n    name=${child##*/}\n    if [ -n \"$3\" ]; then\n      next=$3/$name\n    else\n      next=$name\n    fi\n    scan \"$child\" \"$(($2 + 1))\" \"$next\" \"$4\"\n  done < \"$listing\"\n  rm -f \"$listing\"\n}\n\nindex=0\nfor configured_root do\n  case \"$configured_root\" in\n    '~') root=$HOME ;;\n    '~/'*) root=$HOME/${configured_root#\\~/} ;;\n    *) root=$configured_root ;;\n  esac\n  if [ -L \"$root\" ] || [ ! -d \"$root\" ]; then\n    printf 'E\\000%s\\000' \"$index\"\n  else\n    scan \"$root\" 0 '' \"$index\"\n  fi\n  index=$((index + 1))\ndone\n";

/// The parts of bytes between zeros.
pub open spec fn zero_parts(bytes: Seq<u8>) -> Seq<Seq<u8>>
    decreases bytes.len(),
{
    if bytes.len() == 0 {
        seq![Seq::empty()]
    } else {
        let front = zero_parts(bytes.drop_last());
        if bytes.last() == 0u8 {
            front.push(Seq::empty())
        } else {
            front.drop_last().push(front.last().push(bytes.last()))
        }
    }
}

/// The contents of each part.
pub open spec fn byte_views(parts: Seq<Vec<u8>>) -> Seq<Seq<u8>> {
    parts.map_values(|part: Vec<u8>| part@)
}

/// The parts of the first `len` bytes between zeros.
fn split_zeros(bytes: &Vec<u8>, len: usize) -> (parts: Vec<Vec<u8>>)
    requires
        len <= bytes@.len(),
    ensures
        byte_views(parts@) == zero_parts(bytes@.take(len as int)),
{
    let mut parts: Vec<Vec<u8>> = Vec::new();
    let mut part: Vec<u8> = Vec::new();
    let mut i: usize = 0;
    assert(byte_views(parts@).push(part@) =~= seq![Seq::<u8>::empty()]);
    while i < len
        invariant
            i <= len <= bytes@.len(),
            byte_views(parts@).push(part@) == zero_parts(bytes@.take(i as int)),
        decreases len - i,
    {
        let ghost front = byte_views(parts@).push(part@);
        assert(bytes@.take(i + 1).drop_last() =~= bytes@.take(i as int));
        assert(bytes@.take(i + 1).last() == bytes@[i as int]);
        if bytes[i] == 0u8 {
            let ghost before = parts@;
            let ghost shown = part@;
            parts.push(part);
            part = Vec::new();
            assert(byte_views(parts@) =~= byte_views(before).push(shown));
            assert(byte_views(parts@).push(part@) =~= front.push(Seq::empty()));
        } else {
            part.push(bytes[i]);
            assert(front.drop_last() =~= byte_views(parts@));
            assert(byte_views(parts@).push(part@) =~= front.drop_last().push(
                front.last().push(bytes@[i as int]),
            ));
        }
        i += 1;
    }
    let ghost before = parts@;
    let ghost shown = part@;
    parts.push(part);
    assert(byte_views(parts@) =~= byte_views(before).push(shown));
    parts
}

/// A path that leads below where it starts: not from the root, and never up.
pub open spec fn safe_below(path: Seq<char>) -> bool {
    !absolute(path) && !slash_parts(path).contains(".."@)
}

/// Whether a path leads below where it starts.
pub fn safe_relative(path: &str) -> (r: bool)
    ensures
        r == safe_below(path@),
{
    if is_absolute(path) {
        return false;
    }
    let parts = split_slashes(path);
    !holds_text(&parts, "..")
}

/// The index of a root that a field gives, if it gives one.
pub open spec fn root_index(part: Seq<u8>, roots: nat) -> Option<int> {
    if !valid_utf8(part) {
        None
    } else {
        match number_of(decode_utf8(part)) {
            Some(index) => if index < roots {
                Some(index as int)
            } else {
                None
            },
            None => None,
        }
    }
}

/// The index of a root that a field gives.
fn read_index(part: &Vec<u8>, roots: usize) -> (index: Option<usize>)
    ensures
        match index {
            Some(index) => index < roots && root_index(part@, roots as nat) == Some(index as int),
            None => root_index(part@, roots as nat) is None,
        },
{
    match decode(part) {
        Err(_) => None,
        Ok(text) => match parse_number(text.as_str()) {
            None => None,
            Some(index) => {
                if index < roots as u64 {
                    Some(index as usize)
                } else {
                    None
                }
            },
        },
    }
}

/// The path of a repository below a root.
pub open spec fn below_root(root: Seq<char>, relative: Seq<char>) -> Seq<char> {
    if relative.len() == 0 {
        root
    } else {
        without_end_slashes(root) + "/"@ + relative
    }
}

/// The path of a repository below a root.
fn path_below(root: &str, relative: &str) -> (path: String)
    ensures
        path@ == below_root(root@, relative@),
{
    if relative.is_empty() {
        return root.to_owned();
    }
    let chars = chars_of(root);
    let mut end: usize = chars.len();
    assert(root@.take(end as int) =~= root@);
    while end > 0 && chars[end - 1] == '/'
        invariant
            end <= chars@.len(),
            chars@ == root@,
            without_end_slashes(root@) == without_end_slashes(root@.take(end as int)),
        decreases end,
    {
        assert(root@.take(end as int).drop_last() =~= root@.take(end - 1));
        end -= 1;
    }
    let head = text_between(&chars, 0, end);
    assert(head@ =~= root@.take(end as int));
    head.concat("/").concat(relative)
}

/// What is known when the fields before have been read.
#[verifier::ext_equal]
pub struct RemoteView {
    pub repositories: Seq<Seq<char>>,
    pub had_error: bool,
}

/// Nothing is believed of output that is not in order.
pub open spec fn malformed() -> (Seq<Seq<char>>, DiscoveryCompletion) {
    (Seq::empty(), DiscoveryCompletion::Malformed)
}

/// What the rest of the fields says.
pub open spec fn read_fields(
    fields: Seq<Seq<u8>>,
    roots: Seq<Seq<char>>,
    known: RemoteView,
    max_results: int,
) -> (Seq<Seq<char>>, DiscoveryCompletion)
    decreases fields.len(),
{
    if fields.len() == 0 {
        (
            known.repositories,
            if known.had_error {
                DiscoveryCompletion::Error
            } else {
                DiscoveryCompletion::Complete
            },
        )
    } else if fields[0] == seq![82u8] && fields.len() > 2 {
        match root_index(fields[1], roots.len()) {
            None => malformed(),
            Some(index) => if !valid_utf8(fields[2]) {
                read_fields(
                    fields.skip(3),
                    roots,
                    RemoteView { had_error: true, ..known },
                    max_results,
                )
            } else if !safe_below(decode_utf8(fields[2])) {
                malformed()
            } else {
                let path = below_root(roots[index], decode_utf8(fields[2]));
                if known.repositories.contains(path) {
                    read_fields(fields.skip(3), roots, known, max_results)
                } else if known.repositories.len() >= max_results {
                    (known.repositories, DiscoveryCompletion::ResultsLimit)
                } else {
                    read_fields(
                        fields.skip(3),
                        roots,
                        RemoteView { repositories: known.repositories.push(path), ..known },
                        max_results,
                    )
                }
            },
        }
    } else if fields[0] == seq![69u8] && fields.len() > 1 {
        if root_index(fields[1], roots.len()) is None {
            malformed()
        } else {
            read_fields(
                fields.skip(2),
                roots,
                RemoteView { had_error: true, ..known },
                max_results,
            )
        }
    } else if fields[0] == seq![76u8] && fields.len() == 1 {
        (known.repositories, DiscoveryCompletion::ResultsLimit)
    } else if fields[0] == seq![78u8] && fields.len() == 1 {
        (known.repositories, DiscoveryCompletion::EntriesLimit)
    } else {
        malformed()
    }
}

/// What the output of the script says.
pub open spec fn remote_findings(stdout: Seq<u8>, roots: Seq<Seq<char>>, max_results: int) -> (
    Seq<Seq<char>>,
    DiscoveryCompletion,
) {
    if stdout.len() == 0 {
        (Seq::empty(), DiscoveryCompletion::Complete)
    } else if stdout.last() != 0u8 {
        malformed()
    } else {
        read_fields(
            zero_parts(stdout.drop_last()),
            roots,
            RemoteView { repositories: Seq::empty(), had_error: false },
            max_results,
        )
    }
}

/// A path stands below one of the roots.
pub open spec fn below_some_root(path: Seq<char>, roots: Seq<Seq<char>>) -> bool {
    exists|i: int, relative: Seq<char>|
        0 <= i < roots.len() && safe_below(relative) && path == #[trigger] below_root(
            roots[i],
            relative,
        )
}

/// Whatever another machine prints, every repository that is believed stands
/// below a root that was asked for, none is named twice, and there are no more
/// than allowed.
pub proof fn remote_findings_stay_below_their_roots(
    stdout: Seq<u8>,
    roots: Seq<Seq<char>>,
    max_results: int,
)
    requires
        max_results >= 0,
    ensures
        ({
            let found = remote_findings(stdout, roots, max_results).0;
            &&& forall|i: int|
                0 <= i < found.len() ==> below_some_root(#[trigger] found[i], roots)
            &&& found.no_duplicates()
            &&& found.len() <= max_results
        }),
{
    if stdout.len() > 0 && stdout.last() == 0u8 {
        lemma_fields_stay_below(
            zero_parts(stdout.drop_last()),
            roots,
            RemoteView { repositories: Seq::empty(), had_error: false },
            max_results,
        );
    }
}

/// What is believed of the rest of the fields stays below the roots.
proof fn lemma_fields_stay_below(
    fields: Seq<Seq<u8>>,
    roots: Seq<Seq<char>>,
    known: RemoteView,
    max_results: int,
)
    requires
        max_results >= 0,
        forall|i: int|
            0 <= i < known.repositories.len() ==> below_some_root(
                #[trigger] known.repositories[i],
                roots,
            ),
        known.repositories.no_duplicates(),
        known.repositories.len() <= max_results,
    ensures
        ({
            let found = read_fields(fields, roots, known, max_results).0;
            &&& forall|i: int|
                0 <= i < found.len() ==> below_some_root(#[trigger] found[i], roots)
            &&& found.no_duplicates()
            &&& found.len() <= max_results
        }),
    decreases fields.len(),
{
    if fields.len() > 0 {
        if fields[0] == seq![82u8] && fields.len() > 2 {
            match root_index(fields[1], roots.len()) {
                None => {},
                Some(index) => {
                    if !valid_utf8(fields[2]) {
                        lemma_fields_stay_below(
                            fields.skip(3),
                            roots,
                            RemoteView { had_error: true, ..known },
                            max_results,
                        );
                    } else if safe_below(decode_utf8(fields[2])) {
                        let path = below_root(roots[index], decode_utf8(fields[2]));
                        if known.repositories.contains(path) {
                            lemma_fields_stay_below(fields.skip(3), roots, known, max_results);
                        } else if known.repositories.len() < max_results {
                            assert(below_some_root(path, roots));
                            lemma_fields_stay_below(
                                fields.skip(3),
                                roots,
                                RemoteView { repositories: known.repositories.push(path), ..known },
                                max_results,
                            );
                        }
                    }
                },
            }
        } else if fields[0] == seq![69u8] && fields.len() > 1 {
            lemma_fields_stay_below(
                fields.skip(2),
                roots,
                RemoteView { had_error: true, ..known },
                max_results,
            );
        }
    }
}

/// Whether a field is one letter.
fn is_letter(part: &Vec<u8>, letter: u8) -> (r: bool)
    ensures
        r == (part@ == seq![letter]),
{
    if part.len() == 1 && part[0] == letter {
        assert(part@ =~= seq![letter]);
        true
    } else {
        assert(part@ != seq![letter]) by {
            if part@ == seq![letter] {
                assert(seq![letter].len() == 1);
                assert(part@[0] == letter);
            }
        }
        false
    }
}

/// What the output of the script says: the repositories, and how the search
/// ended.
pub fn parse_remote(stdout: &Vec<u8>, roots: &Vec<String>, max_results: usize) -> (r: (
    Vec<String>,
    DiscoveryCompletion,
))
    ensures
        (views(r.0@), r.1) == remote_findings(stdout@, views(roots@), max_results as int),
{
    if stdout.len() == 0 {
        let none: Vec<String> = Vec::new();
        assert(views(none@) =~= Seq::empty());
        return (none, DiscoveryCompletion::Complete);
    }
    if stdout[stdout.len() - 1] != 0u8 {
        let none: Vec<String> = Vec::new();
        assert(views(none@) =~= Seq::empty());
        return (none, DiscoveryCompletion::Malformed);
    }
    let fields = split_zeros(stdout, stdout.len() - 1);
    assert(stdout@.take(stdout@.len() - 1) =~= stdout@.drop_last());
    let ghost all = byte_views(fields@);
    let ghost goal = remote_findings(stdout@, views(roots@), max_results as int);
    let total: usize = fields.len();
    let mut repositories: Vec<String> = Vec::new();
    let mut had_error = false;
    let mut cursor: usize = 0;
    assert(all.skip(0) =~= all);
    assert(views(repositories@) =~= Seq::empty());
    while cursor < total
        invariant
            cursor <= total,
            total == fields@.len(),
            all == byte_views(fields@),
            goal == remote_findings(stdout@, views(roots@), max_results as int),
            goal == read_fields(
                all.skip(cursor as int),
                views(roots@),
                RemoteView { repositories: views(repositories@), had_error },
                max_results as int,
            ),
        decreases total - cursor,
    {
        let ghost rest = all.skip(cursor as int);
        let left: usize = total - cursor;
        proof {
            assert(rest[0] == fields@[cursor as int]@);
            if left > 1 {
                assert(rest[1] == fields@[cursor + 1]@);
                assert(rest.skip(2) =~= all.skip(cursor + 2));
            }
            if left > 2 {
                assert(rest[2] == fields@[cursor + 2]@);
                assert(rest.skip(3) =~= all.skip(cursor + 3));
            }
        }
        if is_letter(&fields[cursor], 82u8) && left > 2 {
            let index = match read_index(&fields[cursor + 1], roots.len()) {
                Some(index) => index,
                None => {
                    return nothing_believed();
                },
            };
            match decode(&fields[cursor + 2]) {
                Err(_) => {
                    had_error = true;
                },
                Ok(relative) => {
                    if !safe_relative(relative.as_str()) {
                        return nothing_believed();
                    }
                    let path = path_below(roots[index].as_str(), relative.as_str());
                    assert(views(roots@)[index as int] == roots@[index as int]@);
                    if !holds_text(&repositories, path.as_str()) {
                        if repositories.len() >= max_results {
                            return (repositories, DiscoveryCompletion::ResultsLimit);
                        }
                        let ghost before = repositories@;
                        let ghost shown = path@;
                        repositories.push(path);
                        assert(views(repositories@) =~= views(before).push(shown));
                    }
                },
            }
            cursor += 3;
        } else if is_letter(&fields[cursor], 69u8) && left > 1 {
            assert(seq![69u8][0] != seq![82u8][0]);
            if read_index(&fields[cursor + 1], roots.len()).is_none() {
                return nothing_believed();
            }
            had_error = true;
            cursor += 2;
        } else if is_letter(&fields[cursor], 76u8) && left == 1 {
            assert(seq![76u8][0] != seq![82u8][0] && seq![76u8][0] != seq![69u8][0]);
            return (repositories, DiscoveryCompletion::ResultsLimit);
        } else if is_letter(&fields[cursor], 78u8) && left == 1 {
            assert(seq![78u8][0] != seq![82u8][0] && seq![78u8][0] != seq![69u8][0]
                && seq![78u8][0] != seq![76u8][0]);
            return (repositories, DiscoveryCompletion::EntriesLimit);
        } else {
            return nothing_believed();
        }
    }
    assert(all.skip(cursor as int).len() == 0);
    (
        repositories,
        if had_error {
            DiscoveryCompletion::Error
        } else {
            DiscoveryCompletion::Complete
        },
    )
}

/// Nothing is believed of output that is not in order.
fn nothing_believed() -> (r: (Vec<String>, DiscoveryCompletion))
    ensures
        (views(r.0@), r.1) == malformed(),
{
    let none: Vec<String> = Vec::new();
    assert(views(none@) =~= Seq::empty());
    (none, DiscoveryCompletion::Malformed)
}

/// How the script ended.
#[derive(Debug, PartialEq, Eq)]
pub enum RemoteOutput {
    Completed { success: bool, code: Option<i32>, stdout: Vec<u8>, stdout_truncated: bool },
    TimedOut,
    Cancelled,
    Error,
}

/// What the end of the script says; one that was cancelled says nothing.
pub open spec fn remote_outcome(
    output: RemoteOutput,
    roots: Seq<Seq<char>>,
    max_results: int,
) -> Option<(Seq<Seq<char>>, DiscoveryCompletion)> {
    match output {
        RemoteOutput::Cancelled => None,
        RemoteOutput::TimedOut => Some((Seq::empty(), DiscoveryCompletion::TimedOut)),
        RemoteOutput::Error => Some((Seq::empty(), DiscoveryCompletion::Error)),
        RemoteOutput::Completed { success, code, stdout, stdout_truncated } => Some(
            if stdout_truncated {
                (Seq::empty(), DiscoveryCompletion::OutputLimit)
            } else if success {
                remote_findings(stdout@, roots, max_results)
            } else if code == Some(255i32) {
                (Seq::empty(), DiscoveryCompletion::Unavailable)
            } else {
                (Seq::empty(), DiscoveryCompletion::Error)
            },
        ),
    }
}

/// The contents of what a script says.
pub open spec fn findings_view(r: Option<(Vec<String>, DiscoveryCompletion)>) -> Option<
    (Seq<Seq<char>>, DiscoveryCompletion),
> {
    match r {
        Some((found, completion)) => Some((views(found@), completion)),
        None => None,
    }
}

/// What the end of the script says.
pub fn scan_remote(output: &RemoteOutput, roots: &Vec<String>, max_results: usize) -> (r: Option<
    (Vec<String>, DiscoveryCompletion),
>)
    ensures
        findings_view(r) == remote_outcome(*output, views(roots@), max_results as int),
{
    let none: Vec<String> = Vec::new();
    assert(views(none@) =~= Seq::empty());
    match output {
        RemoteOutput::Cancelled => None,
        RemoteOutput::TimedOut => Some((none, DiscoveryCompletion::TimedOut)),
        RemoteOutput::Error => Some((none, DiscoveryCompletion::Error)),
        RemoteOutput::Completed { success, code, stdout, stdout_truncated } => {
            if *stdout_truncated {
                Some((none, DiscoveryCompletion::OutputLimit))
            } else if *success {
                Some(parse_remote(stdout, roots, max_results))
            } else {
                let unavailable = match code {
                    Some(code) => *code == 255i32,
                    None => false,
                };
                if unavailable {
                    Some((none, DiscoveryCompletion::Unavailable))
                } else {
                    Some((none, DiscoveryCompletion::Error))
                }
            }
        },
    }
}

/// Where OpenSSH connects to.
#[derive(Debug, PartialEq, Eq)]
pub struct SshDestination {
    pub destination: String,
    pub port: Option<u16>,
}

/// The command that the other machine runs.
pub open spec fn remote_scan(roots: Seq<Seq<char>>, limits: DiscoveryLimits, entry_limit: usize) -> CommandView {
    CommandView {
        program: "/bin/sh"@,
        args: seq![
            "-c"@,
            REMOTE_SCAN_SCRIPT@,
            "tether-discovery"@,
            numeral(limits.max_depth as nat),
            numeral(limits.max_results as nat),
            numeral(entry_limit as nat),
        ] + roots,
    }
}

/// The arguments with which OpenSSH runs a command line elsewhere.
pub open spec fn ssh_arguments(
    connection: Seq<Seq<char>>,
    destination: Seq<char>,
    port: Option<u16>,
    line: Seq<char>,
) -> Seq<Seq<char>> {
    connection + (match port {
        Some(port) => seq!["-p"@, numeral(port as nat)],
        None => Seq::empty(),
    }) + seq!["--"@, destination, line]
}

/// Puts texts behind others.
fn extend_texts(texts: &mut Vec<String>, more: &Vec<String>)
    ensures
        views(final(texts)@) == views(old(texts)@) + views(more@),
{
    let ghost before = views(texts@);
    let ghost rest = views(more@);
    let mut i: usize = 0;
    assert(before + rest.take(0) =~= before);
    while i < more.len()
        invariant
            i <= more@.len(),
            rest == views(more@),
            views(texts@) == before + rest.take(i as int),
        decreases more.len() - i,
    {
        let text = more[i].clone();
        let ghost shown = text@;
        let ghost held = texts@;
        assert(shown == rest[i as int]);
        texts.push(text);
        assert(views(texts@) =~= views(held).push(shown));
        i += 1;
        assert(before + rest.take(i as int) =~= (before + rest.take(i - 1)).push(rest[i - 1]));
    }
    assert(rest.take(i as int) =~= rest);
}

/// The command with which OpenSSH runs a command line elsewhere.
pub(crate) fn ssh_command(
    target: &SshDestination,
    binaries: &ProcessBinaries,
    connection: &Vec<String>,
    line: String,
) -> (command: CommandSpec)
    ensures
        command@ == (CommandView {
            program: binaries@.ssh,
            args: ssh_arguments(views(connection@), target.destination@, target.port, line@),
        }),
{
    let mut args: Vec<String> = Vec::new();
    assert(views(args@) =~= Seq::empty());
    extend_texts(&mut args, connection);
    let mut tail: Vec<String> = Vec::new();
    if let Some(port) = target.port {
        tail.push("-p".to_owned());
        tail.push(decimal(port as u64));
    }
    tail.push("--".to_owned());
    tail.push(target.destination.clone());
    tail.push(line);
    extend_texts(&mut args, &tail);
    assert(views(args@) =~= ssh_arguments(
        views(connection@),
        target.destination@,
        target.port,
        line@,
    ));
    CommandSpec::new(binaries.ssh().to_owned(), args)
}

/// The command that runs the script on another machine. A root with NUL cannot
/// be handed over. `connection` holds the options with which OpenSSH connects.
pub fn remote_spec(
    target: &SshDestination,
    roots: &Vec<String>,
    binaries: &ProcessBinaries,
    limits: DiscoveryLimits,
    entry_limit: usize,
    connection: &Vec<String>,
) -> (r: Result<CommandSpec, QuoteError>)
    ensures
        ({
            let scan = remote_scan(views(roots@), limits, entry_limit);
            &&& r is Err <==> holds_nul(scan)
            &&& r is Ok ==> r->Ok_0@ == (CommandView {
                program: binaries@.ssh,
                args: ssh_arguments(
                    views(connection@),
                    target.destination@,
                    target.port,
                    command_line(scan),
                ),
            })
        }),
{
    let mut args = vec![
        "-c".to_owned(),
        REMOTE_SCAN_SCRIPT.to_owned(),
        "tether-discovery".to_owned(),
        decimal(limits.max_depth as u64),
        decimal(limits.max_results as u64),
        decimal(entry_limit as u64),
    ];
    assert(views(args@) =~= seq![
        "-c"@,
        REMOTE_SCAN_SCRIPT@,
        "tether-discovery"@,
        numeral(limits.max_depth as nat),
        numeral(limits.max_results as nat),
        numeral(entry_limit as nat),
    ]);
    extend_texts(&mut args, roots);
    let scan = CommandSpec::new("/bin/sh".to_owned(), args);
    assert(scan@ =~= remote_scan(views(roots@), limits, entry_limit));
    let line = match scan.posix_command_line() {
        Ok(line) => line,
        Err(error) => {
            return Err(error);
        },
    };
    Ok(ssh_command(target, binaries, connection, line))
}

} // verus!
