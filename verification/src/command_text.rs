//! What the commands say, and the small decisions between what they read and
//! what they print.

use vstd::prelude::*;
use vstd::string::*;
use vstd::utf8::*;

use crate::config::{
    escaped_config_text, host_position, preset_views, shown_config_text, CommandPreset, Config,
    ConfigView, HostConfig, HostView, PresetView,
};
use crate::document::{field, field_path, root, root_path};
use crate::failure::{led_to, plain, Failure};
use crate::json_text::{
    find_text, json_nodes, node_views, parse_json, text_at, JsonNode, NodeView,
};
use crate::launch::{placement_name, placement_text};
use crate::model::HerdrAgentKind;
use crate::pane_title::str_view;
use crate::selection::{CommandPresetArg, HostListEntry};
use crate::text::{
    byte_len, byte_length, chars_of, decimal, holds_text, is_ascii_alphanumeric,
    ascii_alphanumeric, join, joined, lemma_byte_len_add, lossy,
    lossy_text, numeral, opt_view, trim, trimmed, views,
};

verus! {

/// A text that may stand for a plugin call in a message.
pub open spec fn correlation(text: Seq<char>) -> bool {
    &&& 0 < byte_len(text) <= 64
    &&& forall|i: int|
        0 <= i < text.len() ==> ascii_alphanumeric(#[trigger] text[i]) || text[i] == '.' || text[i]
            == ':' || text[i] == '-' || text[i] == '_'
}

/// Whether a text may stand for a plugin call in a message.
pub fn is_correlation(text: &str) -> (r: bool)
    ensures
        r == correlation(text@),
{
    let size: usize = byte_length(text);
    if size == 0 || size > 64 {
        return false;
    }
    let chars = chars_of(text);
    let mut i: usize = 0;
    while i < chars.len()
        invariant
            i <= chars@.len(),
            chars@ == text@,
            forall|j: int|
                0 <= j < i ==> ascii_alphanumeric(#[trigger] text@[j]) || text@[j] == '.'
                    || text@[j] == ':' || text@[j] == '-' || text@[j] == '_',
        decreases chars.len() - i,
    {
        let c = chars[i];
        assert(text@[i as int] == c);
        if !(is_ascii_alphanumeric(c) || c == '.' || c == ':' || c == '-' || c == '_') {
            return false;
        }
        i += 1;
    }
    true
}

/// What stands for a plugin call in a message.
pub open spec fn reference_in(nodes: Seq<NodeView>) -> Seq<char> {
    match text_at(nodes, field(root(), "correlation_id"@)) {
        Some(text) => if correlation(text) {
            text
        } else {
            "unavailable"@
        },
        None => "unavailable"@,
    }
}

/// What stands for a plugin call in a message.
pub open spec fn correlation_reference(context: Option<Seq<char>>) -> Seq<char> {
    match context {
        Some(context) => match json_nodes(encode_utf8(context)) {
            Ok(nodes) => reference_in(nodes),
            Err(_) => "unavailable"@,
        },
        None => "unavailable"@,
    }
}

/// What stands for a plugin call in a message, once its context was read.
pub fn find_reference(nodes: &Vec<JsonNode>) -> (reference: String)
    ensures
        reference@ == reference_in(node_views(nodes@)),
{
    match find_text(nodes, &field_path(root_path(), "correlation_id")) {
        Some(text) => {
            if is_correlation(text.as_str()) {
                text
            } else {
                "unavailable".to_owned()
            }
        },
        None => "unavailable".to_owned(),
    }
}

/// What stands for a plugin call in a message.
pub fn plugin_correlation_reference(context: Option<&str>) -> (reference: String)
    ensures
        reference@ == correlation_reference(str_view(context)),
{
    let text = match context {
        Some(text) => text,
        None => {
            return "unavailable".to_owned();
        },
    };
    match parse_json(text.as_bytes()) {
        Ok(nodes) => find_reference(&nodes),
        Err(_) => "unavailable".to_owned(),
    }
}

/// The outcome of a command. Of one that a plugin runs, only what stands for
/// the call is told.
pub fn command_outcome(outcome: Result<(), Failure>, plugin_managed: bool, context: Option<&str>) -> (r:
    Result<(), Failure>)
    ensures
        r is Ok <==> outcome is Ok,
        outcome is Err && plugin_managed ==> r->Err_0@ == plain(
            "plugin command failed; correlation "@ + correlation_reference(str_view(context)),
        ),
        outcome is Err && !plugin_managed ==> r->Err_0@ == outcome->Err_0@,
{
    match outcome {
        Ok(()) => Ok(()),
        Err(failure) => {
            if plugin_managed {
                Err(
                    Failure::new(
                        "plugin command failed; correlation ".to_owned().concat(
                            plugin_correlation_reference(context).as_str(),
                        ),
                    ),
                )
            } else {
                Err(failure)
            }
        },
    }
}

/// A reference that is shown is plain: at most 64 characters, none of which can
/// be mistaken for anything but part of it.
pub proof fn shown_references_are_plain(nodes: Seq<NodeView>)
    ensures
        correlation(reference_in(nodes)),
{
    reveal_strlit("unavailable");
    let text = "unavailable"@;
    assert forall|i: int| 0 <= i < text.len() implies ascii_alphanumeric(#[trigger] text[i]) by {}
    lemma_ascii_bytes(text);
}

/// A text of letters and digits takes one byte for each.
proof fn lemma_ascii_bytes(text: Seq<char>)
    requires
        forall|i: int| 0 <= i < text.len() ==> ascii_alphanumeric(#[trigger] text[i]),
    ensures
        byte_len(text) == text.len(),
    decreases text.len(),
{
    if text.len() > 0 {
        let front = text.drop_last();
        assert forall|i: int| 0 <= i < front.len() implies ascii_alphanumeric(
            #[trigger] front[i],
        ) by {
            assert(front[i] == text[i]);
        }
        lemma_ascii_bytes(front);
        lemma_byte_len_add(front, seq![text.last()]);
        assert(front + seq![text.last()] =~= text);
        assert(ascii_alphanumeric(text[text.len() - 1]));
        assert(encode_utf8(seq![text.last()]).len() == 1) by {
            reveal_with_fuel(encode_utf8, 2);
            assert(seq![text.last()].drop_first() =~= Seq::empty());
        }
    } else {
        assert(encode_utf8(text).len() == 0) by {
            reveal_with_fuel(encode_utf8, 1);
        }
    }
}

/// How a changed configuration of Herdr is taken back, or loaded later.
pub open spec fn rollback_text(backup: Option<Seq<char>>) -> Seq<char> {
    match backup {
        None => "; rerun `herdr server reload-config` when the server is available"@,
        Some(backup) =>
            "; rollback remains available with `herdr-tether setup keybinding --rollback` from backup `"@
            + backup + "`"@,
    }
}

/// How a changed configuration of Herdr is taken back, or loaded later.
pub fn rollback_diagnostic(backup: Option<&str>) -> (text: String)
    ensures
        text@ == rollback_text(str_view(backup)),
{
    match backup {
        None => "; rerun `herdr server reload-config` when the server is available".to_owned(),
        Some(backup) =>
            "; rollback remains available with `herdr-tether setup keybinding --rollback` from backup `".to_owned().concat(
        backup).concat("`"),
    }
}

/// How reloading the configuration of Herdr ended.
#[derive(Debug, PartialEq, Eq)]
pub enum Reload {
    Succeeded,
    /// It ended otherwise, with this status.
    Failed(String),
    /// It could not be started.
    NotStarted(Failure),
}

/// What is said of a reload that did not succeed.
pub open spec fn reload_text(config: Seq<char>, why: Seq<char>, backup: Option<Seq<char>>) -> Seq<char> {
    "Herdr config at `"@ + config + "` was updated but reload "@ + why + rollback_text(backup)
}

/// The outcome of reloading the configuration of Herdr.
pub fn reload_herdr_config(config: &str, backup: Option<&str>, reload: Reload) -> (r: Result<
    (),
    Failure,
>)
    ensures
        match reload {
            Reload::Succeeded => r is Ok,
            Reload::Failed(status) => r is Err && r->Err_0@ == plain(
                reload_text(config@, "failed with status "@ + status@, str_view(backup)),
            ),
            Reload::NotStarted(failure) => r is Err && r->Err_0@ == led_to(
                reload_text(config@, "could not be started"@, str_view(backup)),
                failure@,
            ),
        },
{
    let told = "Herdr config at `".to_owned().concat(config).concat("` was updated but reload ");
    let ending = rollback_diagnostic(backup);
    match reload {
        Reload::Succeeded => Ok(()),
        Reload::Failed(status) => {
            let why = "failed with status ".to_owned().concat(status.as_str());
            Err(Failure::new(told.concat(why.as_str()).concat(ending.as_str())))
        },
        Reload::NotStarted(failure) => Err(
            failure.context(told.concat("could not be started").concat(ending.as_str())),
        ),
    }
}

/// What is said of worktree paths that were left out.
pub open spec fn refused_text(rejected: nat) -> Option<Seq<char>> {
    if rejected == 0 {
        None
    } else {
        Some(
            "warning: Herdr reported "@ + numeral(rejected)
                + " worktree path(s) that Tether cannot use, so they were left out of the picker ordering. A path is left out when it is not absolute, when it names a Git directory rather than a checkout, when there is no readable checkout there, or when the repository reported more worktrees than Tether considers. `--separate-git-dir` and submodule layouts put a repository's Git directory outside its checkout, which is where a checkout and a Git directory get confused."@,
        )
    }
}

/// The warning for worktree paths that were left out, if there were any.
pub fn refused_worktree_warning(rejected: usize) -> (warning: Option<String>)
    ensures
        opt_view(warning) == refused_text(rejected as nat),
{
    if rejected == 0 {
        return None;
    }
    Some(
        "warning: Herdr reported ".to_owned().concat(decimal(rejected as u64).as_str()).concat(
            " worktree path(s) that Tether cannot use, so they were left out of the picker ordering. A path is left out when it is not absolute, when it names a Git directory rather than a checkout, when there is no readable checkout there, or when the repository reported more worktrees than Tether considers. `--separate-git-dir` and submodule layouts put a repository's Git directory outside its checkout, which is where a checkout and a Git directory get confused.",
        ),
    )
}

/// What is found at a path that was reported as a worktree.
#[derive(Clone, Copy, Debug, PartialEq, Eq, Structural)]
pub enum WorktreeFinding {
    /// Somewhere to work.
    Checkout,
    /// A bare repository, which is listed as a worktree of itself.
    BareRepository,
    /// Nothing that can be used.
    Unusable,
}

/// The paths of checkouts, in order.
pub open spec fn checkouts(paths: Seq<Seq<char>>, findings: Seq<WorktreeFinding>) -> Seq<Seq<char>>
    decreases paths.len(),
{
    if paths.len() == 0 {
        Seq::empty()
    } else {
        let front = checkouts(paths.drop_last(), findings);
        if findings[paths.len() - 1] == WorktreeFinding::Checkout {
            front.push(paths.last())
        } else {
            front
        }
    }
}

/// The number of paths at which nothing can be used.
pub open spec fn unusable(findings: Seq<WorktreeFinding>) -> nat
    decreases findings.len(),
{
    if findings.len() == 0 {
        0
    } else {
        unusable(findings.drop_last()) + if findings.last() == WorktreeFinding::Unusable {
            1nat
        } else {
            0nat
        }
    }
}

/// The reported worktrees that are offered, with the number that was refused.
///
/// A bare repository is left out without being counted: it is reported in an
/// ordinary layout and is no mistake. Where nothing was found out in time,
/// nothing is offered and nothing is counted.
pub fn offered_worktrees(
    paths: &Vec<String>,
    findings: Option<&Vec<WorktreeFinding>>,
    rejected: usize,
) -> (r: (Vec<String>, usize))
    requires
        findings matches Some(findings) ==> findings@.len() == paths@.len(),
        rejected + paths@.len() <= usize::MAX,
    ensures
        match findings {
            None => views(r.0@) == Seq::<Seq<char>>::empty() && r.1 == 0,
            Some(findings) => views(r.0@) == checkouts(views(paths@), findings@) && r.1
                == rejected + unusable(findings@),
        },
{
    let mut offered: Vec<String> = Vec::new();
    assert(views(offered@) =~= Seq::empty());
    let findings = match findings {
        Some(findings) => findings,
        None => {
            return (offered, 0);
        },
    };
    let ghost all = views(paths@);
    let mut refused: usize = rejected;
    let mut i: usize = 0;
    while i < paths.len()
        invariant
            i <= paths@.len(),
            all == views(paths@),
            findings@.len() == paths@.len(),
            rejected + paths@.len() <= usize::MAX,
            refused <= rejected + i,
            refused == rejected + unusable(findings@.take(i as int)),
            views(offered@) == checkouts(all.take(i as int), findings@),
        decreases paths.len() - i,
    {
        assert(all.take(i + 1).drop_last() =~= all.take(i as int));
        assert(all.take(i + 1).last() == paths@[i as int]@);
        assert(findings@.take(i + 1).drop_last() =~= findings@.take(i as int));
        assert(findings@.take(i + 1).last() == findings@[i as int]);
        match findings[i] {
            WorktreeFinding::Checkout => {
                let path = paths[i].clone();
                let ghost before = offered@;
                let ghost shown = path@;
                offered.push(path);
                assert(views(offered@) =~= views(before).push(shown));
            },
            WorktreeFinding::BareRepository => {},
            WorktreeFinding::Unusable => {
                refused += 1;
            },
        }
        i += 1;
    }
    assert(all.take(i as int) =~= all);
    assert(findings@.take(i as int) =~= findings@);
    (offered, refused)
}

/// Every reported worktree is offered, counted as refused, or a bare
/// repository.
pub proof fn reported_worktrees_are_accounted_for(
    paths: Seq<Seq<char>>,
    findings: Seq<WorktreeFinding>,
)
    requires
        findings.len() == paths.len(),
    ensures
        checkouts(paths, findings).len() + unusable(findings) + findings.filter(
            |finding: WorktreeFinding| finding == WorktreeFinding::BareRepository,
        ).len() == paths.len(),
    decreases paths.len(),
{
    let bare = |finding: WorktreeFinding| finding == WorktreeFinding::BareRepository;
    reveal(Seq::filter);
    if paths.len() > 0 {
        let front = paths.drop_last();
        lemma_later_findings_do_not_matter(front, findings.drop_last(), findings);
        reported_worktrees_are_accounted_for(front, findings.drop_last());
    }
}

/// Which paths are checkouts depends on the findings at these paths alone.
proof fn lemma_later_findings_do_not_matter(
    paths: Seq<Seq<char>>,
    a: Seq<WorktreeFinding>,
    b: Seq<WorktreeFinding>,
)
    requires
        paths.len() <= a.len(),
        paths.len() <= b.len(),
        forall|i: int| 0 <= i < paths.len() ==> #[trigger] a[i] == b[i],
    ensures
        checkouts(paths, a) == checkouts(paths, b),
    decreases paths.len(),
{
    if paths.len() > 0 {
        lemma_later_findings_do_not_matter(paths.drop_last(), a, b);
        assert(a[paths.len() - 1] == b[paths.len() - 1]);
    }
}

/// What is said of an agent kind that Herdr does not know.
pub open spec fn unrecognized_text(kind: Seq<char>, kinds: Seq<Seq<char>>) -> Option<Seq<char>> {
    if kinds.len() == 0 || kinds.contains(kind) {
        None
    } else {
        Some(
            "warning: Herdr does not recognize agent kind `"@ + kind
                + "`. The workload will run normally, but it will not appear as an agent and Mission Control cannot bind it. Recognized kinds: "@
                + joined(kinds, ", "@) + "."@,
        )
    }
}

/// The warning for an agent kind that Herdr does not know, if it told any.
pub fn unrecognized_agent_warning(kind: &HerdrAgentKind, kinds: &Vec<String>) -> (warning: Option<
    String,
>)
    ensures
        opt_view(warning) == unrecognized_text(kind@, views(kinds@)),
{
    if kinds.len() == 0 || holds_text(kinds, kind.as_str()) {
        return None;
    }
    Some(
        "warning: Herdr does not recognize agent kind `".to_owned().concat(kind.as_str()).concat(
            "`. The workload will run normally, but it will not appear as an agent and Mission Control cannot bind it. Recognized kinds: ",
        ).concat(join(kinds, ", ").as_str()).concat("."),
    )
}

/// The outcome of a probe on a host, once its errors are text.
pub fn probe_outcome(name: &str, success: bool, status: &str, errors: &str) -> (r: Result<(), Failure>)
    ensures
        success ==> r is Ok,
        !success ==> r is Err && r->Err_0@ == plain(
            name@ + " probe failed with status "@ + status@ + ": "@ + trimmed(errors@),
        ),
{
    if success {
        return Ok(());
    }
    Err(
        Failure::new(
            name.to_owned().concat(" probe failed with status ").concat(status).concat(
                ": ",
            ).concat(trim(errors).as_str()),
        ),
    )
}

/// The outcome of a probe on a host.
pub fn require_probe_success(name: &str, success: bool, status: &str, stderr: &Vec<u8>) -> (r: Result<
    (),
    Failure,
>)
    ensures
        success ==> r is Ok,
        !success ==> r is Err && r->Err_0@ == plain(
            name@ + " probe failed with status "@ + status@ + ": "@ + trimmed(lossy_text(stderr@)),
        ),
{
    probe_outcome(name, success, status, lossy(stderr).as_str())
}

/// A host as it was asked for on the command line.
pub open spec fn host_of_args(
    name: Seq<char>,
    target: Seq<char>,
    roots: Seq<Seq<char>>,
    presets: Seq<CommandPresetArg>,
) -> HostView {
    HostView {
        name,
        target,
        roots,
        presets: presets.map_values(
            |preset: CommandPresetArg| PresetView {
                name: preset.name@,
                command: preset.command@,
                herdr_agent: None,
                health_command: None,
            },
        ),
    }
}

/// A host as it was asked for on the command line.
pub fn host_from_args(
    name: String,
    target: String,
    roots: Vec<String>,
    presets: &Vec<CommandPresetArg>,
) -> (host: HostConfig)
    ensures
        host@ == host_of_args(name@, target@, views(roots@), presets@),
{
    let ghost wanted = host_of_args(name@, target@, views(roots@), presets@).presets;
    let mut made: Vec<CommandPreset> = Vec::new();
    let mut i: usize = 0;
    assert(preset_views(made@) =~= wanted.take(0));
    while i < presets.len()
        invariant
            i <= presets@.len(),
            wanted == host_of_args(name@, target@, views(roots@), presets@).presets,
            preset_views(made@) == wanted.take(i as int),
        decreases presets.len() - i,
    {
        let preset = CommandPreset {
            name: presets[i].name.clone(),
            command: presets[i].command.clone(),
            herdr_agent: None,
            health_command: None,
        };
        let ghost before = made@;
        let ghost shown = preset@;
        assert(shown == wanted[i as int]);
        made.push(preset);
        assert(preset_views(made@) =~= preset_views(before).push(shown));
        i += 1;
        assert(wanted.take(i as int) =~= wanted.take(i - 1).push(wanted[i - 1]));
    }
    assert(wanted.take(i as int) =~= wanted);
    HostConfig { name, target, roots, presets: made }
}

/// Takes a host out of the configuration, or says that it has none of the name.
pub fn remove_configured_host(config: &mut Config, name: &str) -> (r: Result<(), Failure>)
    ensures
        match host_position(old(config)@.hosts, name@) {
            Some(at) => r is Ok && final(config)@ == (ConfigView {
                hosts: old(config)@.hosts.remove(at),
                ..old(config)@
            }),
            None => r is Err && r->Err_0@ == plain("unknown configured host `"@ + name@ + "`"@)
                && final(config)@ == old(config)@,
        },
{
    if config.remove_host(name) {
        Ok(())
    } else {
        Err(Failure::new("unknown configured host `".to_owned().concat(name).concat("`")))
    }
}

/// The line on which a host is listed. What was configured is made visible, so
/// that the line is one line and its fields are three.
pub fn host_row(entry: &HostListEntry) -> (line: String)
    ensures
        line@ == shown_config_text(entry.name@) + "\t"@ + shown_config_text(entry.target@) + "\t"@
            + entry.source@,
{
    escaped_config_text(entry.name.as_str()).concat("\t").concat(
        escaped_config_text(entry.target.as_str()).as_str(),
    ).concat("\t").concat(entry.source)
}

/// What setup says of the configuration that is in effect.
pub open spec fn setup_texts(
    config: ConfigView,
    config_file: Seq<char>,
    state_file: Seq<char>,
) -> Seq<Seq<char>> {
    let found = config.discovery;
    seq![
        "Tether configuration: "@ + config_file,
        "Tether state: "@ + state_file,
        "Effective discovery: roots "@ + (if found.local_roots.len() == 0 {
            "HOME fallback"@
        } else {
            shown_config_text(joined(found.local_roots, ", "@))
        }) + "; depth "@ + numeral(found.max_depth as nat) + "; entries "@ + numeral(
            found.max_entries as nat,
        ) + "; results "@ + numeral(found.max_results as nat) + "; timeout "@ + numeral(
            found.timeout_seconds as nat,
        ) + "s; workers "@ + numeral(found.workers as nat),
        "Effective retention: "@ + numeral(config.retention.closed_days as nat) + " days"@,
        "Effective placement: "@ + placement_text(config.ui.placement),
        "Configured targets: "@ + numeral(config.hosts.len()),
        "Prerequisites: Herdr, tmux, and SSH must be installed and executable."@,
        "Herdr keybindings are changed only by the explicit keybinding command."@,
        "Binding to install: plugin_action moneycaringcoder.tether.open"@,
        "Next: install prefix+t with `herdr-tether setup keybinding`, or run `herdr-tether open` now."@,
    ]
}

/// What setup says of the configuration that is in effect.
pub fn setup_lines(config: &Config, config_file: &str, state_file: &str) -> (lines: Vec<String>)
    ensures
        views(lines@) == setup_texts(config@, config_file@, state_file@),
{
    let found = &config.discovery;
    let roots = if found.local_roots.len() == 0 {
        "HOME fallback".to_owned()
    } else {
        escaped_config_text(join(&found.local_roots, ", ").as_str())
    };
    assert(config@.hosts.len() == config.hosts@.len());
    let lines = vec![
        "Tether configuration: ".to_owned().concat(config_file),
        "Tether state: ".to_owned().concat(state_file),
        "Effective discovery: roots ".to_owned().concat(roots.as_str()).concat("; depth ").concat(
            decimal(found.max_depth as u64).as_str(),
        ).concat("; entries ").concat(decimal(found.max_entries as u64).as_str()).concat(
            "; results ",
        ).concat(decimal(found.max_results as u64).as_str()).concat("; timeout ").concat(
            decimal(found.timeout_seconds).as_str(),
        ).concat("s; workers ").concat(decimal(found.workers as u64).as_str()),
        "Effective retention: ".to_owned().concat(
            decimal(config.retention.closed_days).as_str(),
        ).concat(" days"),
        "Effective placement: ".to_owned().concat(placement_name(config.ui.placement)),
        "Configured targets: ".to_owned().concat(decimal(config.hosts.len() as u64).as_str()),
        "Prerequisites: Herdr, tmux, and SSH must be installed and executable.".to_owned(),
        "Herdr keybindings are changed only by the explicit keybinding command.".to_owned(),
        "Binding to install: plugin_action moneycaringcoder.tether.open".to_owned(),
        "Next: install prefix+t with `herdr-tether setup keybinding`, or run `herdr-tether open` now.".to_owned(),
    ];
    assert(views(lines@) =~= setup_texts(config@, config_file@, state_file@));
    lines
}

} // verus!
