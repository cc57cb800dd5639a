//! What is chosen by the command line, by the picker and by both together.

use vstd::prelude::*;
use vstd::string::*;

use crate::config::{
    host_named, host_position, host_position_finds, with_aliases, ConfigView, HostView, PresetView,
};
use crate::model::{Placement, SessionId};
use crate::selection::{
    chosen_command, complete, effective_hosts, equals_at, free_aliases, host_list, hosts_in_scope,
    hosts_of_name, overridden, overridden_workload, preset_position, resolved_host,
    selected_by_args, PickView, PickerHost, PickerHostOrigin, RequestView, SelectionView,
};
use crate::text::white_space;

verus! {

/// The first host of a name stands at a position.
pub open spec fn names_host(hosts: Seq<HostView>, name: Seq<char>, at: int) -> bool {
    &&& 0 <= at < hosts.len()
    &&& hosts[at].name == name
    &&& forall|i: int| 0 <= i < at ==> (#[trigger] hosts[i]).name != name
}

/// No host has the name.
pub open spec fn names_no_host(hosts: Seq<HostView>, name: Seq<char>) -> bool {
    forall|i: int| 0 <= i < hosts.len() ==> (#[trigger] hosts[i]).name != name
}

/// The first preset of a name stands at a position.
pub open spec fn names_preset(presets: Seq<PresetView>, name: Seq<char>, at: int) -> bool {
    &&& 0 <= at < presets.len()
    &&& presets[at].name == name
    &&& forall|i: int| 0 <= i < at ==> (#[trigger] presets[i]).name != name
}

/// A configured name stands for the first host that has it.
pub proof fn configured_hosts_resolve(
    config: ConfigView,
    aliases: Seq<Seq<char>>,
    name: Seq<char>,
    at: int,
)
    requires
        names_host(config.hosts, name, at),
        name != "local"@,
    ensures
        resolved_host(config, aliases, name) == Some(config.hosts[at]),
{
    host_position_finds(config.hosts, name);
    assert(host_named(config.hosts, name));
    let found = host_position(config.hosts, name)->0;
    if found < at {
        assert(config.hosts[found].name != name);
    }
    if at < found {
        assert(config.hosts.take(found)[at] == config.hosts[at]);
        assert(host_named(config.hosts.take(found), name));
    }
}

/// This machine is always known; an alias stands for a host of its own name
/// where no configured one has it; any other name is unknown.
pub proof fn other_hosts_resolve(config: ConfigView, aliases: Seq<Seq<char>>, name: Seq<char>)
    ensures
        resolved_host(config, aliases, "local"@) matches Some(host) && host.name == "local"@
            && host.target == "local"@ && host.roots.len() == 0 && host.presets.len() == 0,
        name != "local"@ && names_no_host(config.hosts, name) && aliases.contains(name)
            ==> (resolved_host(config, aliases, name) matches Some(host) && host.name == name
            && host.target == name && host.roots.len() == 0 && host.presets.len() == 0),
        name != "local"@ && names_no_host(config.hosts, name) && !aliases.contains(name)
            ==> resolved_host(config, aliases, name) is None,
{
    host_position_finds(config.hosts, name);
    if names_no_host(config.hosts, name) {
        assert(!host_named(config.hosts, name));
    }
}

/// The first preset of a name is the one that is found.
proof fn lemma_preset_position(presets: Seq<PresetView>, name: Seq<char>)
    ensures
        match preset_position(presets, name) {
            Some(at) => names_preset(presets, name, at),
            None => forall|i: int| 0 <= i < presets.len() ==> (#[trigger] presets[i]).name != name,
        },
    decreases presets.len(),
{
    if presets.len() > 0 {
        let front = presets.drop_last();
        lemma_preset_position(front, name);
        match preset_position(front, name) {
            Some(at) => {
                assert(front[at] == presets[at]);
                assert forall|i: int| 0 <= i < at implies (#[trigger] presets[i]).name != name by {
                    assert(front[i] == presets[i]);
                }
            },
            None => {
                assert forall|i: int| 0 <= i < presets.len() - 1 implies (
                #[trigger] presets[i]).name != name by {
                    assert(front[i] == presets[i]);
                }
            },
        }
    }
}

/// A preset that is asked for gives its own command and agent, under its name.
pub proof fn presets_give_their_command(host: HostView, name: Seq<char>, at: int)
    requires
        names_preset(host.presets, name, at),
    ensures
        chosen_command(host, Some(name), None) matches Ok(choice) && choice.preset == Some(name)
            && choice.command == host.presets[at].command && choice.agent
            == host.presets[at].herdr_agent,
{
    lemma_preset_position(host.presets, name);
    match preset_position(host.presets, name) {
        Some(found) => {
            if found < at {
                assert(host.presets[found].name != name);
            }
            if at < found {
                assert(host.presets[at].name != name);
            }
        },
        None => {
            assert(host.presets[at].name != name);
        },
    }
}

/// A command that is asked for is taken as it is, unless it is blank. One that is
/// not told at all, or told twice, is refused, and so is a preset that the host
/// does not have.
pub proof fn commands_are_taken_as_they_are(host: HostView, preset: Seq<char>, command: Seq<char>)
    ensures
        (exists|i: int| 0 <= i < command.len() && !white_space(#[trigger] command[i])) ==> (
        chosen_command(host, None, Some(command)) matches Ok(choice) && choice.preset is None
            && choice.command == command && choice.agent is None),
        (forall|i: int| 0 <= i < command.len() ==> white_space(#[trigger] command[i]))
            ==> chosen_command(host, None, Some(command)) is Err,
        chosen_command(host, Some(preset), Some(command)) is Err,
        chosen_command(host, None, None) is Err,
        (forall|i: int|
            0 <= i < host.presets.len() ==> (#[trigger] host.presets[i]).name != preset)
            ==> chosen_command(host, Some(preset), None) is Err,
{
    lemma_preset_position(host.presets, preset);
}

/// A preset on the command line is cut at its first equals sign: whatever stands
/// behind it, further equals signs too, is the command.
pub proof fn presets_are_cut_at_the_first_equals_sign(name: Seq<char>, command: Seq<char>)
    requires
        !name.contains('='),
    ensures
        ({
            let text = name + seq!['='] + command;
            &&& equals_at(text) == Some(name.len() as int)
            &&& text.take(name.len() as int) == name
            &&& text.skip(name.len() as int + 1) == command
        }),
        equals_at(name) is None,
    decreases name.len(),
{
    let text = name + seq!['='] + command;
    assert(text.take(name.len() as int) =~= name);
    assert(text.skip(name.len() as int + 1) =~= command);
    if name.len() > 0 {
        let rest = name.drop_first();
        assert(name[0] != '=') by {
            assert(name.contains(name[0]));
        }
        assert forall|i: int| 0 <= i < rest.len() implies rest[i] != '=' by {
            assert(name.contains(name[i + 1]));
        }
        presets_are_cut_at_the_first_equals_sign(rest, command);
        assert(text.drop_first() =~= rest + seq!['='] + command);
    } else {
        assert(text[0] == '=');
    }
}

/// What the command line asks for is what is made: the host, the directory and
/// the command that it names, an agent hint before that of the preset, and its
/// placement before the configured one.
pub proof fn arguments_are_taken_as_they_are(
    config: ConfigView,
    aliases: Seq<Seq<char>>,
    request: RequestView,
)
    ensures
        selected_by_args(config, aliases, request) matches Ok(selection) ==> {
            let host = resolved_host(config, aliases, request.host->0)->0;
            let choice = chosen_command(host, request.preset, request.command);
            &&& request.host == Some(selection.host)
            &&& request.directory == Some(selection.directory)
            &&& choice is Ok
            &&& selection.command == choice->Ok_0.command
            &&& selection.preset == choice->Ok_0.preset
            &&& request.preset == selection.preset
            &&& request.command is Some ==> request.command == Some(selection.command)
            &&& selection.herdr_agent == match request.herdr_agent {
                Some(agent) => Some(agent),
                None => choice->Ok_0.agent,
            }
            &&& selection.placement == match request.placement {
                Some(placement) => placement,
                None => config.ui.placement,
            }
        },
        selected_by_args(config, aliases, request) is Ok <==> request.host is Some
            && request.directory is Some && resolved_host(config, aliases, request.host->0) is Some
            && chosen_command(
            resolved_host(config, aliases, request.host->0)->0,
            request.preset,
            request.command,
        ) is Ok,
{
}

/// Nothing needs to be picked exactly if a host, a directory and a command or a
/// preset are told.
pub proof fn complete_requests_tell_everything(request: RequestView)
    ensures
        complete(request) <==> (request.host is Some && request.directory is Some && !(
        request.command is None && request.preset is None)),
{
}

/// What the command line asks for takes the place of what was picked, and
/// everything else stays as it was picked.
pub proof fn requests_override_what_was_picked(
    config: ConfigView,
    aliases: Seq<Seq<char>>,
    request: RequestView,
    picked: SelectionView,
)
    ensures
        ({
            let r = overridden_workload(config, aliases, request, picked);
            let name = match request.host {
                Some(name) => name,
                None => picked.host,
            };
            let host = resolved_host(config, aliases, name);
            let asked = request.command is Some || request.preset is Some;
            &&& r is Ok <==> (request.host is Some || asked ==> host is Some) && (asked
                ==> chosen_command(host->0, request.preset, request.command) is Ok)
            &&& r matches Ok(selection) ==> {
                &&& selection.host == name
                &&& selection.directory == match request.directory {
                    Some(directory) => directory,
                    None => picked.directory,
                }
                &&& selection.placement == match request.placement {
                    Some(placement) => placement,
                    None => picked.placement,
                }
                &&& !asked ==> selection.command == picked.command && selection.preset
                    == picked.preset && selection.herdr_agent == match request.herdr_agent {
                    Some(agent) => Some(agent),
                    None => picked.herdr_agent,
                }
                &&& asked ==> {
                    let choice = chosen_command(host->0, request.preset, request.command)->Ok_0;
                    &&& selection.command == choice.command
                    &&& selection.preset == choice.preset
                    &&& selection.herdr_agent == match request.herdr_agent {
                        Some(agent) => Some(agent),
                        None => choice.agent,
                    }
                }
            }
        }),
{
}

/// A request that asks for nothing leaves every choice of the picker alone.
pub proof fn empty_requests_leave_the_choice_alone(
    config: ConfigView,
    aliases: Seq<Seq<char>>,
    picked: PickView,
)
    ensures
        ({
            let nothing = RequestView {
                host: None,
                directory: None,
                command: None,
                preset: None,
                herdr_agent: None,
                placement: None,
            };
            overridden(config, aliases, nothing, picked) == Ok::<PickView, Seq<char>>(picked)
        }),
{
}

/// A picked workload that exists stays the one that was picked; only where it is
/// placed can be asked for otherwise. A new one is overridden by the request.
pub proof fn picked_workloads_stay_what_they_are(
    config: ConfigView,
    aliases: Seq<Seq<char>>,
    request: RequestView,
    id: SessionId,
    usual: Placement,
    host: Seq<char>,
    target: Option<Seq<char>>,
    name: Seq<char>,
    new: SelectionView,
)
    ensures
        ({
            let placement = match request.placement {
                Some(placement) => placement,
                None => usual,
            };
            &&& overridden(
                config,
                aliases,
                request,
                PickView::Resume { id, placement: usual },
            ) == Ok::<PickView, Seq<char>>(PickView::Resume { id, placement })
            &&& overridden(
                config,
                aliases,
                request,
                PickView::Restart { id, placement: usual },
            ) == Ok::<PickView, Seq<char>>(PickView::Restart { id, placement })
            &&& overridden(
                config,
                aliases,
                request,
                PickView::AttachExternal { host, target, name, placement: usual },
            ) == Ok::<PickView, Seq<char>>(
                PickView::AttachExternal { host, target, name, placement },
            )
            &&& overridden(config, aliases, request, PickView::ManageObservers) == Ok::<
                PickView,
                Seq<char>,
            >(PickView::ManageObservers)
            &&& match overridden_workload(config, aliases, request, new) {
                Ok(selection) => overridden(config, aliases, request, PickView::Create(new))
                    == Ok::<PickView, Seq<char>>(PickView::Create(selection)),
                Err(text) => overridden(config, aliases, request, PickView::Create(new)) == Err::<
                    PickView,
                    Seq<char>,
                >(text),
            }
        }),
{
}

/// A host that is asked for leaves exactly the hosts of that name in the picker,
/// and a new workload is offered on exactly the effective hosts, both in their
/// order.
pub proof fn the_picker_keeps_what_was_asked_for(hosts: Seq<PickerHost>, name: Seq<char>)
    ensures
        hosts_of_name(hosts, name) == hosts.filter(|host: PickerHost| host.name@ == name),
        effective_hosts(hosts) == hosts.filter(
            |host: PickerHost| host.origin == PickerHostOrigin::Effective,
        ),
    decreases hosts.len(),
{
    reveal(Seq::filter);
    if hosts.len() > 0 {
        the_picker_keeps_what_was_asked_for(hosts.drop_last(), name);
    } else {
        assert(hosts.filter(|host: PickerHost| host.name@ == name) =~= Seq::empty());
        assert(hosts.filter(|host: PickerHost| host.origin == PickerHostOrigin::Effective)
            =~= Seq::empty());
    }
}

/// A request for a host is about exactly the hosts of that name; one for none is
/// about all.
pub proof fn requests_are_about_the_host_they_name(hosts: Seq<HostView>, name: Seq<char>)
    ensures
        hosts_in_scope(hosts, None) == hosts,
        hosts_in_scope(hosts, Some(name)) == hosts.filter(|host: HostView| host.name == name),
    decreases hosts.len(),
{
    reveal(Seq::filter);
    if hosts.len() > 0 {
        requests_are_about_the_host_they_name(hosts.drop_last(), name);
    } else {
        assert(hosts.filter(|host: HostView| host.name == name) =~= Seq::empty());
    }
}

/// The list of hosts begins with this machine, goes on with every configured
/// host under its name and target, and ends with the aliases whose names no
/// configured host has, each telling where it comes from.
pub proof fn lists_hold_every_host(config: ConfigView, aliases: Seq<Seq<char>>)
    ensures
        ({
            let list = host_list(config, aliases);
            let n = config.hosts.len() as int;
            &&& list.len() > n
            &&& list[0] == ("local"@, "local"@, "builtin"@)
            &&& forall|i: int|
                0 <= i < n ==> #[trigger] list[i + 1] == (
                    config.hosts[i].name,
                    config.hosts[i].target,
                    "configured"@,
                )
            &&& list.skip(n + 1) == aliases.filter(
                |alias: Seq<char>| names_no_host(config.hosts, alias),
            ).map_values(|alias: Seq<char>| (alias, alias, "ssh_config"@))
        }),
{
    lemma_free(config.hosts, aliases);
    let list = host_list(config, aliases);
    assert(list.skip(config.hosts.len() as int + 1) =~= free_aliases(config.hosts, aliases));
}

/// The aliases whose names are not taken, in their order.
proof fn lemma_free(hosts: Seq<HostView>, aliases: Seq<Seq<char>>)
    ensures
        free_aliases(hosts, aliases) == aliases.filter(
            |alias: Seq<char>| names_no_host(hosts, alias),
        ).map_values(|alias: Seq<char>| (alias, alias, "ssh_config"@)),
    decreases aliases.len(),
{
    let free = |alias: Seq<char>| names_no_host(hosts, alias);
    let shown = |alias: Seq<char>| (alias, alias, "ssh_config"@);
    reveal(Seq::filter);
    if aliases.len() > 0 {
        let front = aliases.drop_last();
        let last = aliases.last();
        lemma_free(hosts, front);
        assert(host_named(hosts, last) <==> !names_no_host(hosts, last));
        assert(front.filter(free).push(last).map_values(shown) =~= front.filter(free).map_values(
            shown,
        ).push(shown(last)));
    } else {
        assert(aliases.filter(free).map_values(shown) =~= Seq::empty());
    }
}

/// Aliases stand behind the configured hosts, which stay as they are. Each alias
/// whose name is not taken becomes a host of that name and target.
pub proof fn aliases_stand_behind_the_hosts(hosts: Seq<HostView>, aliases: Seq<Seq<char>>)
    ensures
        ({
            let all = with_aliases(hosts, aliases);
            &&& all.len() >= hosts.len()
            &&& all.take(hosts.len() as int) == hosts
            &&& forall|i: int|
                hosts.len() <= i < all.len() ==> {
                    let host = #[trigger] all[i];
                    &&& aliases.contains(host.name)
                    &&& host.target == host.name
                    &&& host.roots.len() == 0
                    &&& host.presets.len() == 0
                    &&& forall|j: int| 0 <= j < i ==> (#[trigger] all[j]).name != host.name
                }
            &&& forall|k: int|
                0 <= k < aliases.len() ==> host_among(all, #[trigger] aliases[k])
        }),
    decreases aliases.len(),
{
    let all = with_aliases(hosts, aliases);
    if aliases.len() > 0 {
        let front = aliases.drop_last();
        let last = aliases.last();
        let before = with_aliases(hosts, front);
        aliases_stand_behind_the_hosts(hosts, front);
        assert(all.take(hosts.len() as int) =~= before.take(hosts.len() as int));
        assert forall|i: int| hosts.len() <= i < all.len() implies {
            let host = #[trigger] all[i];
            &&& aliases.contains(host.name)
            &&& host.target == host.name
            &&& host.roots.len() == 0
            &&& host.presets.len() == 0
            &&& forall|j: int| 0 <= j < i ==> (#[trigger] all[j]).name != host.name
        } by {
            let host = all[i];
            if i < before.len() {
                assert(before[i] == host);
                assert(front.contains(host.name));
                let k = choose|k: int| 0 <= k < front.len() && front[k] == host.name;
                assert(aliases[k] == host.name);
                assert forall|j: int| 0 <= j < i implies (#[trigger] all[j]).name != host.name by {
                    assert(before[j] == all[j]);
                }
            } else {
                assert(aliases[aliases.len() - 1] == host.name);
                assert forall|j: int| 0 <= j < i implies (#[trigger] all[j]).name != host.name by {
                    assert(before[j] == all[j]);
                    assert(!host_named(before, last));
                }
            }
        }
        assert forall|k: int| 0 <= k < aliases.len() implies host_among(
            all,
            #[trigger] aliases[k],
        ) by {
            if k < front.len() {
                assert(front[k] == aliases[k]);
                assert(host_among(before, front[k]));
                let i = choose|i: int|
                    0 <= i < before.len() && (#[trigger] before[i]).name == front[k];
                assert(all[i].name == aliases[k]);
            } else if host_named(before, last) {
                let i = choose|i: int|
                    0 <= i < before.len() && (#[trigger] before[i]).name == last;
                assert(all[i].name == aliases[k]);
            } else {
                assert(all[all.len() - 1].name == aliases[k]);
            }
        }
    } else {
        assert(all.take(hosts.len() as int) =~= hosts);
    }
}

/// Some host has the name.
pub open spec fn host_among(hosts: Seq<HostView>, name: Seq<char>) -> bool {
    exists|i: int| 0 <= i < hosts.len() && (#[trigger] hosts[i]).name == name
}

} // verus!
