//! Which configurations are in order, and what older ones become.

use vstd::prelude::*;
use vstd::string::*;

use crate::config::{
    addition_problem, config_problem, default_config, first, host_named, host_position,
    host_position_finds, host_problem, hosts_problem, misleading, preset_named, preset_problem,
    presets_problem, reserved_name, roots_problem, text_problem, with_host, ConfigView, HostView,
    PresetView,
};
use crate::config_store::{
    schema_in, schema_of, version_in, ConfigSchema, ConfigV0, ConfigV1, ConfigV2, DecodedConfig,
};
use crate::document::StepView;
use crate::failure::FailureView;
use crate::model::Placement;
use crate::selection_laws::{names_host, names_no_host};
use crate::ssh_target::{aliases_in, begins_section, destination_of, literal_name, with_names};
use crate::text::{byte_len, control, white_space};
use crate::text_laws::{prefixes_are_taken_off, texts_are_cut_at_a_character};
use crate::toml_text::{LeafView, ScalarView};

verus! {

/// A text that holds something, holds no NUL, and has no more bytes than allowed.
pub open spec fn fits(text: Seq<char>, max: int) -> bool {
    &&& !text.contains('\0')
    &&& exists|i: int| 0 <= i < text.len() && !white_space(#[trigger] text[i])
    &&& byte_len(text) <= max
}

/// A positive number that a file can hold.
pub open spec fn positive(number: int) -> bool {
    number != 0 && number <= 9_223_372_036_854_775_807
}

/// A preset in order: its name, its command and its health command fit.
pub open spec fn preset_in_order(preset: PresetView) -> bool {
    &&& fits(preset.name, 16_384)
    &&& fits(preset.command, 262_144)
    &&& preset.health_command matches Some(command) ==> fits(command, 262_144)
}

/// A host in order: its name is not that of this machine, its target leads to a
/// machine, and its roots and presets fit, the presets under names of their own.
pub open spec fn host_in_order(host: HostView) -> bool {
    &&& host.roots.len() <= 1_024
    &&& host.presets.len() <= 256
    &&& fits(host.name, 16_384)
    &&& !reserved_name(host.name)
    &&& fits(host.target, 16_384)
    &&& destination_of(host.target) is Some
    &&& forall|i: int| 0 <= i < host.roots.len() ==> fits(#[trigger] host.roots[i], 16_384)
    &&& forall|i: int|
        0 <= i < host.presets.len() ==> preset_in_order(#[trigger] host.presets[i])
    &&& forall|i: int, j: int|
        0 <= i < j < host.presets.len() ==> (#[trigger] host.presets[i]).name != (
        #[trigger] host.presets[j]).name
}

/// Hosts in order: each is, and each has a name of its own.
pub open spec fn hosts_in_order(hosts: Seq<HostView>) -> bool {
    &&& forall|i: int| 0 <= i < hosts.len() ==> host_in_order(#[trigger] hosts[i])
    &&& forall|i: int, j: int|
        0 <= i < j < hosts.len() ==> (#[trigger] hosts[i]).name != (#[trigger] hosts[j]).name
}

/// A configuration in order.
pub open spec fn config_in_order(config: ConfigView) -> bool {
    &&& config.version == 3
    &&& config.hosts.len() <= 256
    &&& config.discovery.local_roots.len() <= 1_024
    &&& forall|i: int|
        0 <= i < config.discovery.local_roots.len() ==> fits(
            #[trigger] config.discovery.local_roots[i],
            16_384,
        )
    &&& positive(config.discovery.max_depth)
    &&& positive(config.discovery.max_entries)
    &&& positive(config.discovery.max_results)
    &&& positive(config.discovery.timeout_seconds)
    &&& config.discovery.timeout_seconds <= 3_600
    &&& positive(config.discovery.workers)
    &&& positive(config.retention.closed_days as int)
    &&& hosts_in_order(config.hosts)
}

/// A text has no problem exactly if it fits.
proof fn lemma_fits(text: Seq<char>, place: Seq<char>, max: int, name: Seq<char>)
    ensures
        text_problem(text, place, max, name) is None <==> fits(text, max),
{
}

/// Roots have no problem exactly if each fits.
proof fn lemma_roots(
    roots: Seq<Seq<char>>,
    before: Seq<char>,
    after: Seq<char>,
    name: Seq<char>,
)
    ensures
        roots_problem(roots, before, after, name) is None <==> forall|i: int|
            0 <= i < roots.len() ==> fits(#[trigger] roots[i], 16_384),
    decreases roots.len(),
{
    if roots.len() > 0 {
        let front = roots.drop_last();
        let n = front.len() as int;
        lemma_roots(front, before, after, name);
        lemma_fits(
            roots.last(),
            before + crate::text::numeral((roots.len() - 1) as nat) + after,
            16_384,
            name,
        );
        assert(roots[n] == roots.last());
        assert(forall|i: int| 0 <= i < n ==> front[i] == roots[i]);
        if forall|i: int| 0 <= i < roots.len() ==> fits(#[trigger] roots[i], 16_384) {
            assert forall|i: int| 0 <= i < front.len() implies fits(#[trigger] front[i], 16_384) by {
                assert(fits(roots[i], 16_384));
            }
        }
        if roots_problem(roots, before, after, name) is None {
            assert forall|i: int| 0 <= i < roots.len() implies fits(#[trigger] roots[i], 16_384) by {
                if i < n {
                    assert(fits(front[i], 16_384));
                }
            }
        }
    }
}

/// Presets have no problem exactly if each is in order and has a name of its own.
proof fn lemma_presets(presets: Seq<PresetView>, host: Seq<char>)
    ensures
        presets_problem(presets, host) is None <==> {
            &&& forall|i: int| 0 <= i < presets.len() ==> preset_in_order(#[trigger] presets[i])
            &&& forall|i: int, j: int|
                0 <= i < j < presets.len() ==> (#[trigger] presets[i]).name != (
                #[trigger] presets[j]).name
        },
    decreases presets.len(),
{
    if presets.len() > 0 {
        let front = presets.drop_last();
        let last = presets.last();
        let n = front.len() as int;
        lemma_presets(front, host);
        assert(presets[n] == last);
        assert(forall|i: int| 0 <= i < n ==> front[i] == presets[i]);
        let good = preset_problem(front, last, host) is None;
        assert(good <==> preset_in_order(last) && !preset_named(front, last.name));
        if presets_problem(presets, host) is None {
            assert forall|i: int| 0 <= i < presets.len() implies preset_in_order(
                #[trigger] presets[i],
            ) by {
                if i < n {
                    assert(preset_in_order(front[i]));
                }
            }
            assert forall|i: int, j: int| 0 <= i < j < presets.len() implies (
            #[trigger] presets[i]).name != (#[trigger] presets[j]).name by {
                assert(front[i] == presets[i]);
                if j < n {
                    assert(front[i].name != front[j].name);
                }
            }
        }
        if (forall|i: int| 0 <= i < presets.len() ==> preset_in_order(#[trigger] presets[i])) && (
        forall|i: int, j: int|
            0 <= i < j < presets.len() ==> (#[trigger] presets[i]).name != (
            #[trigger] presets[j]).name) {
            assert forall|i: int| 0 <= i < front.len() implies preset_in_order(
                #[trigger] front[i],
            ) by {
                assert(preset_in_order(presets[i]));
            }
            assert forall|i: int, j: int| 0 <= i < j < front.len() implies (
            #[trigger] front[i]).name != (#[trigger] front[j]).name by {
                assert(presets[i].name != presets[j].name);
            }
            assert(preset_in_order(presets[n]));
            assert(!preset_named(front, last.name)) by {
                if preset_named(front, last.name) {
                    let i = choose|i: int|
                        0 <= i < front.len() && (#[trigger] front[i]).name == last.name;
                    assert(presets[i].name != presets[n].name);
                }
            }
        }
    }
}

/// A host has no problem exactly if it is in order and its name is not taken.
proof fn lemma_host(others: Seq<HostView>, host: HostView)
    ensures
        host_problem(others, host) is None <==> host_in_order(host) && !host_named(
            others,
            host.name,
        ),
{
    lemma_roots(host.roots, "root at index "@, " for host `"@ + host.name + "`"@, "root"@);
    lemma_presets(host.presets, host.name);
    lemma_fits(
        host.name,
        "host at index "@ + crate::text::numeral(others.len()) + " name"@,
        16_384,
        "name"@,
    );
    lemma_fits(host.target, "host `"@ + host.name + "` target"@, 16_384, "target"@);
}

/// Hosts have no problem exactly if they are in order.
proof fn lemma_hosts(hosts: Seq<HostView>)
    ensures
        hosts_problem(hosts) is None <==> hosts_in_order(hosts),
    decreases hosts.len(),
{
    if hosts.len() > 0 {
        let front = hosts.drop_last();
        let last = hosts.last();
        let n = front.len() as int;
        lemma_hosts(front);
        lemma_host(front, last);
        assert(hosts[n] == last);
        assert(forall|i: int| 0 <= i < n ==> front[i] == hosts[i]);
        if hosts_problem(hosts) is None {
            assert forall|i: int| 0 <= i < hosts.len() implies host_in_order(
                #[trigger] hosts[i],
            ) by {
                if i < n {
                    assert(host_in_order(front[i]));
                }
            }
            assert forall|i: int, j: int| 0 <= i < j < hosts.len() implies (
            #[trigger] hosts[i]).name != (#[trigger] hosts[j]).name by {
                assert(front[i] == hosts[i]);
                if j < n {
                    assert(front[i].name != front[j].name);
                }
            }
        }
        if hosts_in_order(hosts) {
            assert forall|i: int| 0 <= i < front.len() implies host_in_order(
                #[trigger] front[i],
            ) by {
                assert(host_in_order(hosts[i]));
            }
            assert forall|i: int, j: int| 0 <= i < j < front.len() implies (
            #[trigger] front[i]).name != (#[trigger] front[j]).name by {
                assert(hosts[i].name != hosts[j].name);
            }
            assert(host_in_order(hosts[n]));
            assert(!host_named(front, last.name)) by {
                if host_named(front, last.name) {
                    let i = choose|i: int|
                        0 <= i < front.len() && (#[trigger] front[i]).name == last.name;
                    assert(hosts[i].name != hosts[n].name);
                }
            }
        }
    }
}

/// A configuration is accepted exactly if it is in order.
pub proof fn configurations_in_order_are_accepted(config: ConfigView)
    ensures
        config_problem(config) is None <==> config_in_order(config),
{
    lemma_roots(
        config.discovery.local_roots,
        "discovery local root at index "@,
        ""@,
        "discovery local root"@,
    );
    lemma_hosts(config.hosts);
}

/// A host is added behind the others exactly if its name is free and the
/// configuration with it is in order. Nothing else changes.
pub proof fn hosts_are_added_behind_the_others(config: ConfigView, host: HostView)
    ensures
        addition_problem(config, host) is None <==> names_no_host(config.hosts, host.name)
            && config_in_order(with_host(config, host)),
        with_host(config, host).hosts.len() == config.hosts.len() + 1,
        with_host(config, host).hosts.drop_last() == config.hosts,
        with_host(config, host).hosts.last() == host,
        with_host(config, host).version == config.version,
        with_host(config, host).ui == config.ui,
        with_host(config, host).notifications == config.notifications,
        with_host(config, host).discovery == config.discovery,
        with_host(config, host).retention == config.retention,
{
    configurations_in_order_are_accepted(with_host(config, host));
    assert(host_named(config.hosts, host.name) <==> !names_no_host(config.hosts, host.name));
    assert(with_host(config, host).hosts.drop_last() =~= config.hosts);
}

/// The host that is removed is the first one of its name.
pub proof fn the_first_host_of_a_name_is_found(hosts: Seq<HostView>, name: Seq<char>, at: int)
    ensures
        host_position(hosts, name) == Some(at) <==> names_host(hosts, name, at),
        host_position(hosts, name) is None <==> names_no_host(hosts, name),
{
    host_position_finds(hosts, name);
    match host_position(hosts, name) {
        Some(found) => {
            assert(hosts[found].name == name);
            assert forall|i: int| 0 <= i < found implies (#[trigger] hosts[i]).name != name by {
                assert(hosts.take(found)[i] == hosts[i]);
            }
            if names_host(hosts, name, at) {
                if found < at {
                    assert(hosts[found].name != name);
                }
                if at < found {
                    assert(hosts[at].name != name);
                }
            }
        },
        None => {
            if names_host(hosts, name, at) {
                assert(host_named(hosts, name));
            }
            assert forall|i: int| 0 <= i < hosts.len() implies (#[trigger] hosts[i]).name
                != name by {
                if hosts[i].name == name {
                    assert(host_named(hosts, name));
                }
            }
        },
    }
}

/// The name of this machine is reserved in letters of either size.
pub proof fn the_name_of_this_machine_is_reserved(name: Seq<char>)
    ensures
        reserved_name(name) <==> {
            &&& name.len() == 5
            &&& name[0] == 'l' || name[0] == 'L'
            &&& name[1] == 'o' || name[1] == 'O'
            &&& name[2] == 'c' || name[2] == 'C'
            &&& name[3] == 'a' || name[3] == 'A'
            &&& name[4] == 'l' || name[4] == 'L'
        },
{
    reveal_strlit("local");
    let lower = name.map_values(|c: char| crate::config::lowered(c));
    if lower == "local"@ {
        assert(lower.len() == 5);
        assert(lower[0] == 'l' && lower[1] == 'o' && lower[2] == 'c' && lower[3] == 'a'
            && lower[4] == 'l');
        lemma_lowered(name[0], 'l', 'L');
        lemma_lowered(name[1], 'o', 'O');
        lemma_lowered(name[2], 'c', 'C');
        lemma_lowered(name[3], 'a', 'A');
        lemma_lowered(name[4], 'l', 'L');
    }
    if name.len() == 5 && (name[0] == 'l' || name[0] == 'L') && (name[1] == 'o' || name[1] == 'O')
        && (name[2] == 'c' || name[2] == 'C') && (name[3] == 'a' || name[3] == 'A') && (name[4]
        == 'l' || name[4] == 'L') {
        assert(lower =~= "local"@);
    }
}

/// A letter is the lowercase form of itself and of its uppercase form alone.
proof fn lemma_lowered(c: char, small: char, large: char)
    requires
        crate::config::lowered(c) == small,
        'a' <= small <= 'z',
        large as u32 + 32 == small as u32,
    ensures
        c == small || c == large,
{
    if 'A' <= c <= 'Z' {
        assert(c as u32 + 32 == small as u32);
        assert(c as u32 == large as u32);
    }
}

/// Without a file the configuration has no hosts, places beside and to the right,
/// shows every toast, keeps closed workloads for 30 days, and searches to a depth
/// of 4 for 3 seconds.
pub proof fn defaults_are_modest()
    ensures
        ({
            let config = default_config();
            &&& config.version == 3
            &&& config.hosts.len() == 0
            &&& config.ui.placement == Placement::SplitRight
            &&& config.notifications.agent_blocked
            &&& config.notifications.agent_done
            &&& config.notifications.workload_failed
            &&& config.discovery.local_roots.len() == 0
            &&& config.discovery.max_depth == 4
            &&& config.discovery.max_entries == 4_096
            &&& config.discovery.max_results == 64
            &&& config.discovery.timeout_seconds == 3
            &&& config.discovery.workers == 4
            &&& config.retention.closed_days == 30
        }),
{
}

/// Each older schema becomes the current one with everything that it held and
/// the defaults of everything else; the current one stays as it is.
pub proof fn older_schemas_become_the_current_one(
    v0: ConfigV0,
    v1: ConfigV1,
    v2: ConfigV2,
    config: crate::config::Config,
)
    ensures
        ({
            let usual = default_config();
            let from0 = DecodedConfig::V0(v0).current();
            let from1 = DecodedConfig::V1(v1).current();
            let from2 = DecodedConfig::V2(v2).current();
            &&& DecodedConfig::Missing.current() == usual
            &&& DecodedConfig::Current(config).current() == config@
            &&& from0.version == 3 && from1.version == 3 && from2.version == 3
            &&& from0.ui == usual.ui && from1.ui == v1.ui && from2.ui == v2.ui
            &&& from0.notifications == usual.notifications
            &&& from1.notifications == usual.notifications
            &&& from2.notifications == usual.notifications
            &&& from0.discovery == usual.discovery
            &&& from1.discovery == usual.discovery
            &&& from2.discovery == v2.discovery@
            &&& from0.retention == usual.retention
            &&& from1.retention == usual.retention
            &&& from2.retention == v2.retention
            &&& from0.hosts.len() == v0.hosts@.len()
            &&& from1.hosts.len() == v1.hosts@.len()
            &&& from2.hosts.len() == v2.hosts@.len()
            &&& forall|i: int|
                0 <= i < v0.hosts@.len() ==> {
                    &&& (#[trigger] from0.hosts[i]).name == v0.hosts@[i].name@
                    &&& from0.hosts[i].target == v0.hosts@[i].target@
                    &&& from0.hosts[i].roots == crate::text::views(v0.hosts@[i].roots@)
                    &&& from0.hosts[i].presets.len() == 0
                }
            &&& forall|i: int|
                0 <= i < v1.hosts@.len() ==> #[trigger] from1.hosts[i] == v1.hosts@[i]@
            &&& forall|i: int|
                0 <= i < v2.hosts@.len() ==> #[trigger] from2.hosts[i] == v2.hosts@[i]@
            &&& DecodedConfig::V0(v0).outdated()
            &&& DecodedConfig::V1(v1).outdated()
            &&& DecodedConfig::V2(v2).outdated()
            &&& !DecodedConfig::Current(config).outdated()
            &&& !DecodedConfig::Missing.outdated()
        }),
{
}

/// A document is written in the schema that its version tells, from 0 to 3; one
/// that tells none, or another, cannot be read.
pub proof fn versions_tell_the_schema(path: Seq<char>, leaves: Seq<LeafView>, version: int)
    ensures
        schema_of(0) == Some(ConfigSchema::V0),
        schema_of(1) == Some(ConfigSchema::V1),
        schema_of(2) == Some(ConfigSchema::V2),
        schema_of(3) == Some(ConfigSchema::Current),
        version < 0 || version > 3 ==> schema_of(version) is None,
        version_in(leaves) == Some(version) && 0 <= version <= 3 ==> schema_in(path, leaves)
            == Ok::<ConfigSchema, FailureView>(schema_of(version)->0),
        version_in(leaves) == Some(version) && (version < 0 || version > 3) ==> schema_in(
            path,
            leaves,
        ) is Err,
        version_in(leaves) is None ==> schema_in(path, leaves) is Err,
{
}

/// The version of a document is the first integer under the key `version`.
pub proof fn the_version_stands_under_its_key(leaves: Seq<LeafView>, at: int, version: int)
    ensures
        0 <= at < leaves.len() && leaves[at].path == seq![StepView::Key("version"@)]
            && leaves[at].value == ScalarView::Integer(version) && (forall|i: int|
            0 <= i < at ==> !((#[trigger] leaves[i]).path == seq![StepView::Key("version"@)]
                && leaves[i].value is Integer)) ==> version_in(leaves) == Some(version),
        (forall|i: int|
            0 <= i < leaves.len() ==> !((#[trigger] leaves[i]).path == seq![
                StepView::Key("version"@),
            ] && leaves[i].value is Integer)) ==> version_in(leaves) is None,
    decreases leaves.len(),
{
    if leaves.len() > 0 {
        let front = leaves.drop_last();
        let n = front.len() as int;
        assert(leaves[n] == leaves.last());
        assert(forall|i: int| 0 <= i < n ==> front[i] == leaves[i]);
        the_version_stands_under_its_key(front, at, version);
        if 0 <= at < leaves.len() && (forall|i: int|
            0 <= i < at ==> !((#[trigger] leaves[i]).path == seq![StepView::Key("version"@)]
                && leaves[i].value is Integer)) {
            if at == n {
                the_version_stands_under_its_key(front, at, version);
                assert forall|i: int| 0 <= i < front.len() implies !((#[trigger] front[i]).path
                    == seq![StepView::Key("version"@)] && front[i].value is Integer) by {
                    assert(leaves[i] == front[i]);
                }
            } else {
                assert forall|i: int| 0 <= i < at implies !((#[trigger] front[i]).path == seq![
                    StepView::Key("version"@),
                ] && front[i].value is Integer) by {
                    assert(leaves[i] == front[i]);
                }
            }
        }
        if forall|i: int|
            0 <= i < leaves.len() ==> !((#[trigger] leaves[i]).path == seq![
                StepView::Key("version"@),
            ] && leaves[i].value is Integer) {
            assert forall|i: int| 0 <= i < front.len() implies !((#[trigger] front[i]).path
                == seq![StepView::Key("version"@)] && front[i].value is Integer) by {
                assert(leaves[i] == front[i]);
            }
            assert(!(leaves[n].path == seq![StepView::Key("version"@)] && leaves[n].value
                is Integer));
        }
    }
}

/// A target without a scheme leads where it says. Behind `ssh://` a port may
/// stand behind a colon; what stands before it is where it leads.
pub proof fn targets_lead_where_they_say(host: Seq<char>, port: Seq<char>, number: u64)
    requires
        host.len() > 0,
        host[0] != '-',
        !host.contains(':'),
        forall|i: int|
            0 <= i < host.len() ==> !control(#[trigger] host[i]) && !white_space(host[i]),
        forall|i: int|
            0 <= i < port.len() ==> !control(#[trigger] port[i]) && !white_space(port[i]),
        !port.contains(':'),
        crate::fields::number_of(port) == Some(number),
    ensures
        destination_of(host) == Some((host, None::<u16>)),
        destination_of("ssh://"@ + host) == Some((host, None::<u16>)),
        number <= 65_535 ==> destination_of("ssh://"@ + host + seq![':'] + port) == Some(
            (host, Some(number as u16)),
        ),
        number > 65_535 ==> destination_of("ssh://"@ + host + seq![':'] + port) is None,
{
    reveal_strlit("ssh://");
    let scheme = "ssh://"@;
    prefixes_are_taken_off(scheme, host, host);
    prefixes_are_taken_off(scheme, host + seq![':'] + port, host);
    texts_are_cut_at_a_character(host, ':', port);
    texts_are_cut_at_a_character(port, ':', host);
    assert(scheme.len() == 6 && scheme[0] == 's' && scheme[3] == ':');
    assert(without_scheme(host)) by {
        if scheme.is_prefix_of(host) {
            assert(host[3] == scheme[3]);
            assert(host.contains(host[3]));
        }
    }
    assert(forall|i: int|
        0 <= i < 6 ==> !control(#[trigger] scheme[i]) && !white_space(scheme[i]));
    let plain = scheme + host;
    assert forall|i: int| 0 <= i < plain.len() implies !control(#[trigger] plain[i])
        && !white_space(plain[i]) by {
        if i < 6 {
            assert(plain[i] == scheme[i]);
        } else {
            assert(plain[i] == host[i - 6]);
        }
    }
    let whole = scheme + host + seq![':'] + port;
    assert(whole =~= scheme + (host + seq![':'] + port));
    assert forall|i: int| 0 <= i < whole.len() implies !control(#[trigger] whole[i])
        && !white_space(whole[i]) by {
        if i < 6 {
            assert(whole[i] == scheme[i]);
        } else if i < 6 + host.len() {
            assert(whole[i] == host[i - 6]);
        } else if i > 6 + host.len() {
            assert(whole[i] == port[i - 7 - host.len()]);
        }
    }
    assert(plain[0] == 's' && whole[0] == 's');
}

/// A text does not begin with the scheme of OpenSSH.
spec fn without_scheme(text: Seq<char>) -> bool {
    !("ssh://"@.is_prefix_of(text))
}

/// A target that is empty, that could be taken for an option, or that holds gaps
/// or control characters leads nowhere.
pub proof fn strange_targets_lead_nowhere(target: Seq<char>, at: int)
    ensures
        target.len() == 0 ==> destination_of(target) is None,
        target.len() > 0 && target[0] == '-' ==> destination_of(target) is None,
        0 <= at < target.len() && (control(target[at]) || white_space(target[at]))
            ==> destination_of(target) is None,
{
}

/// The names of a section are its aliases, each taken once and in order, but for
/// those that are patterns.
pub proof fn sections_name_their_aliases(
    known: Seq<Seq<char>>,
    names: Seq<Seq<char>>,
    at: int,
    word: Seq<char>,
)
    ensures
        with_names(known, names).len() >= known.len(),
        with_names(known, names).take(known.len() as int) == known,
        0 <= at < names.len() && literal_name(names[at]) ==> with_names(known, names).contains(
            names[at],
        ),
        with_names(known, names).contains(word) ==> known.contains(word) || (names.contains(word)
            && literal_name(word)),
        literal_name(word) <==> !word.contains('*') && !word.contains('?') && !word.contains('!')
            && !word.contains('"'),
    decreases names.len(),
{
    let all = with_names(known, names);
    if names.len() > 0 {
        let front = names.drop_last();
        let last = names.last();
        let before = with_names(known, front);
        sections_name_their_aliases(known, front, at, word);
        assert(all.take(known.len() as int) =~= before.take(known.len() as int));
        assert(names[names.len() - 1] == last);
        if 0 <= at < names.len() && literal_name(names[at]) {
            if at < front.len() {
                assert(front[at] == names[at]);
                let k = choose|k: int| 0 <= k < before.len() && before[k] == names[at];
                assert(all[k] == names[at]);
            } else if before.contains(last) {
                let k = choose|k: int| 0 <= k < before.len() && before[k] == last;
                assert(all[k] == last);
            } else {
                assert(all[all.len() - 1] == last);
            }
        }
        if all.contains(word) {
            let k = choose|k: int| 0 <= k < all.len() && all[k] == word;
            if k < before.len() {
                assert(before[k] == word);
                assert(before.contains(word));
                if front.contains(word) {
                    let j = choose|j: int| 0 <= j < front.len() && front[j] == word;
                    assert(names[j] == word);
                }
            }
        }
    } else {
        assert(all.take(known.len() as int) =~= known);
    }
}

/// A line with `Host`, in letters of either size, names aliases; no other does.
pub proof fn lines_with_host_name_aliases(lines: Seq<Seq<char>>, line: Seq<char>)
    ensures
        ({
            let words = crate::text::words_of(line);
            let front = aliases_in(lines);
            &&& words.len() > 0 && begins_section(words[0]) ==> aliases_in(lines.push(line))
                == with_names(front, words.skip(1))
            &&& words.len() == 0 || !begins_section(words[0]) ==> aliases_in(lines.push(line))
                == front
        }),
        aliases_in(Seq::empty()).len() == 0,
{
    assert(lines.push(line).drop_last() =~= lines);
    assert(lines.push(line).last() == line);
}

/// The characters that could break or reorder a line: controls, the line and
/// paragraph separators, and the bidirectional and zero-width formatting
/// characters.
pub proof fn misleading_characters(c: char)
    ensures
        control(c) ==> misleading(c),
        c == '\u{2028}' || c == '\u{2029}' ==> misleading(c),
        '\u{200b}' <= c <= '\u{200f}' ==> misleading(c),
        '\u{202a}' <= c <= '\u{202e}' ==> misleading(c),
        '\u{2066}' <= c <= '\u{2069}' ==> misleading(c),
        c == '\u{61c}' || c == '\u{2060}' || c == '\u{feff}' ==> misleading(c),
        ' ' <= c <= '~' ==> !misleading(c),
{
}

} // verus!
