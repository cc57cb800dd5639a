//! The configuration: its hosts and defaults, the limits that it is held to,
//! and configured text made safe to show.

use vstd::prelude::*;
use vstd::string::*;

use crate::backend::copy_strings;
use crate::failure::{plain, Failure, FailureView};
use crate::model::{HerdrAgentKind, Placement};
use crate::ssh_target::{destination_of, parse_target};
use crate::text::{
    blank, byte_len, byte_length, chars_of, control, copy_opt, decimal, is_blank, is_control,
    numeral, opt_view, same_text, views,
};
use crate::uuids::{hex_text, lemma_hex_digits};

verus! {

/// The largest integer that a configuration file can hold.
pub const MAX_SERIALIZABLE_INTEGER: u64 = 9_223_372_036_854_775_807;

/// A named command of a host.
#[derive(Debug, PartialEq, Eq)]
pub struct CommandPreset {
    pub name: String,
    pub command: String,
    pub herdr_agent: Option<HerdrAgentKind>,
    /// Optional command that reports whether the workload is serving.
    ///
    /// "The process is alive" and "the thing is actually serving" are different
    /// facts, and for a dev server or a watcher the second is the one that
    /// matters. Absent, nothing is said about serving. Trusted code, exactly
    /// like `command`: it runs on the workload's host, in the workload's
    /// directory.
    pub health_command: Option<String>,
}

impl CommandPreset {
    pub const MAX_COMMAND_BYTES: usize = 262_144;
}

/// A host that workloads can run on.
#[derive(Debug, PartialEq, Eq)]
pub struct HostConfig {
    pub name: String,
    pub target: String,
    pub roots: Vec<String>,
    pub presets: Vec<CommandPreset>,
}

impl HostConfig {
    pub const MAX_ROOTS: usize = 1_024;

    pub const MAX_PRESETS: usize = 256;
}

/// How the interface behaves unless told otherwise.
#[derive(Clone, Copy, Debug, PartialEq, Eq, Structural)]
pub struct UiDefaults {
    pub placement: Placement,
}

impl Default for UiDefaults {
    fn default() -> (ui: Self)
        ensures
            ui == (UiDefaults { placement: Placement::SplitRight }),
    {
        UiDefaults { placement: Placement::SplitRight }
    }
}

/// How directories are looked for unless told otherwise.
#[derive(Debug, PartialEq, Eq)]
pub struct DiscoveryDefaults {
    pub local_roots: Vec<String>,
    pub max_depth: usize,
    pub max_entries: usize,
    pub max_results: usize,
    pub timeout_seconds: u64,
    pub workers: usize,
}

impl DiscoveryDefaults {
    pub const MAX_LOCAL_ROOTS: usize = 1_024;
}

/// The longest time that a search for directories may take, in seconds.
pub const MAX_TIMEOUT_SECONDS: u64 = 3_600;

impl Default for DiscoveryDefaults {
    fn default() -> (discovery: Self)
        ensures
            discovery@ == default_discovery(),
    {
        let local_roots: Vec<String> = Vec::new();
        assert(views(local_roots@) =~= Seq::empty());
        DiscoveryDefaults {
            local_roots,
            max_depth: 4,
            max_entries: 4096,
            max_results: 64,
            timeout_seconds: 3,
            workers: 4,
        }
    }
}

/// The defaults of directory discovery.
pub open spec fn default_discovery() -> DiscoveryView {
    DiscoveryView {
        local_roots: Seq::empty(),
        max_depth: 4,
        max_entries: 4096,
        max_results: 64,
        timeout_seconds: 3,
        workers: 4,
    }
}

/// How long closed workloads are kept.
#[derive(Clone, Copy, Debug, PartialEq, Eq, Structural)]
pub struct RetentionDefaults {
    pub closed_days: u64,
}

impl Default for RetentionDefaults {
    fn default() -> (retention: Self)
        ensures
            retention == (RetentionDefaults { closed_days: 30 }),
    {
        RetentionDefaults { closed_days: 30 }
    }
}

/// Opt-in Herdr toasts for events that want a person's attention.
///
/// These are advisory. Herdr delivers a toast only when the user has enabled
/// it, and Tether's own surfaces remain the authoritative view either way.
#[derive(Clone, Copy, Debug, PartialEq, Eq, Structural)]
pub struct NotificationDefaults {
    /// Notify when a Mission Control agent starts waiting on a person.
    pub agent_blocked: bool,
    /// Notify when a Mission Control agent settles as done.
    pub agent_done: bool,
    /// Notify when a workload's command ends with a failing status.
    pub workload_failed: bool,
}

/// Every toast is on.
pub open spec fn default_notifications() -> NotificationDefaults {
    NotificationDefaults { agent_blocked: true, agent_done: true, workload_failed: true }
}

impl Default for NotificationDefaults {
    fn default() -> (notifications: Self)
        ensures
            notifications == default_notifications(),
    {
        NotificationDefaults { agent_blocked: true, agent_done: true, workload_failed: true }
    }
}

/// The whole configuration.
#[derive(Debug, PartialEq, Eq)]
pub struct Config {
    pub version: u32,
    pub hosts: Vec<HostConfig>,
    pub ui: UiDefaults,
    pub notifications: NotificationDefaults,
    pub discovery: DiscoveryDefaults,
    pub retention: RetentionDefaults,
}

/// The contents of a [`CommandPreset`].
pub struct PresetView {
    pub name: Seq<char>,
    pub command: Seq<char>,
    pub herdr_agent: Option<Seq<char>>,
    pub health_command: Option<Seq<char>>,
}

/// The contents of a [`HostConfig`].
#[verifier::ext_equal]
pub struct HostView {
    pub name: Seq<char>,
    pub target: Seq<char>,
    pub roots: Seq<Seq<char>>,
    pub presets: Seq<PresetView>,
}

/// The contents of a [`DiscoveryDefaults`].
#[verifier::ext_equal]
pub struct DiscoveryView {
    pub local_roots: Seq<Seq<char>>,
    pub max_depth: int,
    pub max_entries: int,
    pub max_results: int,
    pub timeout_seconds: int,
    pub workers: int,
}

/// The contents of a [`Config`].
#[verifier::ext_equal]
pub struct ConfigView {
    pub version: int,
    pub hosts: Seq<HostView>,
    pub ui: UiDefaults,
    pub notifications: NotificationDefaults,
    pub discovery: DiscoveryView,
    pub retention: RetentionDefaults,
}

impl View for CommandPreset {
    type V = PresetView;

    open spec fn view(&self) -> PresetView {
        PresetView {
            name: self.name@,
            command: self.command@,
            herdr_agent: match self.herdr_agent {
                Some(kind) => Some(kind@),
                None => None,
            },
            health_command: opt_view(self.health_command),
        }
    }
}

impl Clone for CommandPreset {
    fn clone(&self) -> (copy: Self)
        ensures
            copy == *self,
    {
        CommandPreset {
            name: self.name.clone(),
            command: self.command.clone(),
            herdr_agent: match &self.herdr_agent {
                Some(kind) => Some(kind.clone()),
                None => None,
            },
            health_command: copy_opt(&self.health_command),
        }
    }
}

impl Clone for HostConfig {
    fn clone(&self) -> (copy: Self)
        ensures
            copy@ == self@,
    {
        let mut presets: Vec<CommandPreset> = Vec::new();
        let mut i: usize = 0;
        while i < self.presets.len()
            invariant
                i <= self.presets@.len(),
                presets@ == self.presets@.take(i as int),
            decreases self.presets.len() - i,
        {
            presets.push(self.presets[i].clone());
            i += 1;
            assert(self.presets@.take(i as int) =~= self.presets@.take(i - 1).push(
                self.presets@[i - 1],
            ));
        }
        assert(self.presets@.take(i as int) =~= self.presets@);
        HostConfig {
            name: self.name.clone(),
            target: self.target.clone(),
            roots: copy_strings(&self.roots),
            presets,
        }
    }
}

/// The contents of each preset.
pub open spec fn preset_views(presets: Seq<CommandPreset>) -> Seq<PresetView> {
    presets.map_values(|preset: CommandPreset| preset@)
}

impl View for HostConfig {
    type V = HostView;

    open spec fn view(&self) -> HostView {
        HostView {
            name: self.name@,
            target: self.target@,
            roots: views(self.roots@),
            presets: preset_views(self.presets@),
        }
    }
}

/// The contents of each host.
pub open spec fn host_views(hosts: Seq<HostConfig>) -> Seq<HostView> {
    hosts.map_values(|host: HostConfig| host@)
}

impl View for DiscoveryDefaults {
    type V = DiscoveryView;

    open spec fn view(&self) -> DiscoveryView {
        DiscoveryView {
            local_roots: views(self.local_roots@),
            max_depth: self.max_depth as int,
            max_entries: self.max_entries as int,
            max_results: self.max_results as int,
            timeout_seconds: self.timeout_seconds as int,
            workers: self.workers as int,
        }
    }
}

impl View for Config {
    type V = ConfigView;

    open spec fn view(&self) -> ConfigView {
        ConfigView {
            version: self.version as int,
            hosts: host_views(self.hosts@),
            ui: self.ui,
            notifications: self.notifications,
            discovery: self.discovery@,
            retention: self.retention,
        }
    }
}

/// Why a configuration is not accepted, for a reader.
#[derive(Debug, PartialEq, Eq)]
pub struct ConfigError {
    failure: Failure,
}

impl View for ConfigError {
    type V = FailureView;

    closed spec fn view(&self) -> FailureView {
        self.failure@
    }
}

impl ConfigError {
    /// An error that says `text`.
    pub fn new(text: String) -> (error: Self)
        ensures
            error@ == plain(text@),
    {
        ConfigError { failure: Failure::new(text) }
    }

    /// An error that a failure explains.
    pub fn explained(failure: Failure) -> (error: Self)
        ensures
            error@ == failure@,
    {
        ConfigError { failure }
    }

    /// What went wrong, for a reader.
    pub fn message(&self) -> (text: String)
        ensures
            text@ == self@.text,
    {
        self.failure.message()
    }

    /// What went wrong with all that led to it.
    pub fn failure(self) -> (failure: Failure)
        ensures
            failure@ == self@,
    {
        self.failure
    }
}

/// The first of two problems, or none if there is neither.
pub open spec fn first(a: Option<Seq<char>>, b: Option<Seq<char>>) -> Option<Seq<char>> {
    if a is Some {
        a
    } else {
        b
    }
}

/// What is wrong with a text that must not be blank or hold NUL.
pub open spec fn nonempty_problem(value: Seq<char>, field: Seq<char>) -> Option<Seq<char>> {
    if value.contains('\0') {
        Some(field + " must not contain NUL"@)
    } else if blank(value) {
        Some(field + " must not be empty"@)
    } else {
        None
    }
}

/// What is wrong with a text of more than `max` bytes.
pub open spec fn size_problem(value: Seq<char>, max: int, field: Seq<char>) -> Option<Seq<char>> {
    if byte_len(value) > max {
        Some(field + " may contain at most "@ + numeral(max as nat) + " bytes"@)
    } else {
        None
    }
}

/// What is wrong with a text that must hold something and fit.
pub open spec fn text_problem(
    value: Seq<char>,
    place: Seq<char>,
    max: int,
    field: Seq<char>,
) -> Option<Seq<char>> {
    first(nonempty_problem(value, place), size_problem(value, max, field))
}

/// What is wrong with a number that must be positive.
pub open spec fn number_problem(value: int, field: Seq<char>) -> Option<Seq<char>> {
    if value == 0 {
        Some(field + " must be greater than zero"@)
    } else if value > MAX_SERIALIZABLE_INTEGER {
        Some(field + " exceeds the maximum TOML integer"@)
    } else {
        None
    }
}

/// What is wrong with a list of more than `max` entries.
pub open spec fn count_problem(count: int, max: int, field: Seq<char>) -> Option<Seq<char>> {
    if count > max {
        Some(field + " may contain at most "@ + numeral(max as nat) + " entries"@)
    } else {
        None
    }
}

/// What is wrong with the first bad one of some roots. `before` and `after`
/// stand around a root's index in its place.
pub open spec fn roots_problem(
    roots: Seq<Seq<char>>,
    before: Seq<char>,
    after: Seq<char>,
    field: Seq<char>,
) -> Option<Seq<char>>
    decreases roots.len(),
{
    if roots.len() == 0 {
        None
    } else {
        first(
            roots_problem(roots.drop_last(), before, after, field),
            text_problem(
                roots.last(),
                before + numeral((roots.len() - 1) as nat) + after,
                Config::MAX_STRING_BYTES as int,
                field,
            ),
        )
    }
}

/// A preset of this name is among the given ones.
pub open spec fn preset_named(presets: Seq<PresetView>, name: Seq<char>) -> bool {
    exists|i: int| 0 <= i < presets.len() && (#[trigger] presets[i]).name == name
}

/// A host of this name is among the given ones.
pub open spec fn host_named(hosts: Seq<HostView>, name: Seq<char>) -> bool {
    exists|i: int| 0 <= i < hosts.len() && (#[trigger] hosts[i]).name == name
}

/// What is wrong with one preset behind some others.
pub open spec fn preset_problem(
    others: Seq<PresetView>,
    preset: PresetView,
    host: Seq<char>,
) -> Option<Seq<char>> {
    let named = "preset `"@ + preset.name + "` for host `"@ + host;
    first(
        text_problem(
            preset.name,
            "preset at index "@ + numeral(others.len()) + " for host `"@ + host + "` name"@,
            Config::MAX_STRING_BYTES as int,
            "preset name"@,
        ),
        if preset_named(others, preset.name) {
            Some("duplicate preset name `"@ + preset.name + "` for host `"@ + host + "`"@)
        } else {
            first(
                text_problem(
                    preset.command,
                    named + "` command"@,
                    CommandPreset::MAX_COMMAND_BYTES as int,
                    "preset command"@,
                ),
                match preset.health_command {
                    Some(command) => text_problem(
                        command,
                        named + "` health command"@,
                        CommandPreset::MAX_COMMAND_BYTES as int,
                        "preset health command"@,
                    ),
                    None => None,
                },
            )
        },
    )
}

/// What is wrong with the first bad one of a host's presets.
pub open spec fn presets_problem(presets: Seq<PresetView>, host: Seq<char>) -> Option<Seq<char>>
    decreases presets.len(),
{
    if presets.len() == 0 {
        None
    } else {
        first(
            presets_problem(presets.drop_last(), host),
            preset_problem(presets.drop_last(), presets.last(), host),
        )
    }
}

/// The lowercase form of an ASCII letter; other characters stay.
pub open spec fn lowered(c: char) -> char {
    if 'A' <= c <= 'Z' {
        (c as u32 + 32) as char
    } else {
        c
    }
}

/// The name stands for this machine, whatever the case of its letters.
pub open spec fn reserved_name(name: Seq<char>) -> bool {
    name.map_values(|c: char| lowered(c)) == "local"@
}

/// What is wrong with one host behind some others. Its target must be one that
/// OpenSSH takes for a machine.
pub open spec fn host_problem(others: Seq<HostView>, host: HostView) -> Option<Seq<char>> {
    first(
        count_problem(host.roots.len() as int, HostConfig::MAX_ROOTS as int, "host roots"@),
        first(
            count_problem(
                host.presets.len() as int,
                HostConfig::MAX_PRESETS as int,
                "host presets"@,
            ),
            first(
                text_problem(
                    host.name,
                    "host at index "@ + numeral(others.len()) + " name"@,
                    Config::MAX_STRING_BYTES as int,
                    "name"@,
                ),
                if reserved_name(host.name) {
                    Some("host name `"@ + host.name + "` is reserved"@)
                } else if host_named(others, host.name) {
                    Some("duplicate host name `"@ + host.name + "`"@)
                } else {
                    first(
                        text_problem(
                            host.target,
                            "host `"@ + host.name + "` target"@,
                            Config::MAX_STRING_BYTES as int,
                            "target"@,
                        ),
                        if destination_of(host.target) is None {
                            Some("invalid target for host `"@ + host.name + "`"@)
                        } else {
                            first(
                                roots_problem(
                                    host.roots,
                                    "root at index "@,
                                    " for host `"@ + host.name + "`"@,
                                    "root"@,
                                ),
                                presets_problem(host.presets, host.name),
                            )
                        },
                    )
                },
            ),
        ),
    )
}

/// What is wrong with the first bad host.
pub open spec fn hosts_problem(hosts: Seq<HostView>) -> Option<Seq<char>>
    decreases hosts.len(),
{
    if hosts.len() == 0 {
        None
    } else {
        first(
            hosts_problem(hosts.drop_last()),
            host_problem(hosts.drop_last(), hosts.last()),
        )
    }
}

/// What is wrong with the numbers that bound a search for directories.
pub open spec fn limits_problem(discovery: DiscoveryView) -> Option<Seq<char>> {
    first(
        number_problem(discovery.max_depth, "discovery max_depth"@),
        first(
            number_problem(discovery.max_entries, "discovery max_entries"@),
            first(
                number_problem(discovery.max_results, "discovery max_results"@),
                first(
                    number_problem(discovery.timeout_seconds, "discovery timeout_seconds"@),
                    if discovery.timeout_seconds > MAX_TIMEOUT_SECONDS {
                        Some("discovery timeout_seconds must be at most 3600"@)
                    } else {
                        number_problem(discovery.workers, "discovery workers"@)
                    },
                ),
            ),
        ),
    )
}

/// The first thing that is wrong with a configuration.
pub open spec fn config_problem(config: ConfigView) -> Option<Seq<char>> {
    if config.version != Config::CURRENT_VERSION {
        Some(
            "unsupported config version "@ + numeral(config.version as nat) + "; expected "@
                + numeral(Config::CURRENT_VERSION as nat),
        )
    } else {
        first(
            count_problem(config.hosts.len() as int, Config::MAX_HOSTS as int, "config hosts"@),
            first(
                count_problem(
                    config.discovery.local_roots.len() as int,
                    DiscoveryDefaults::MAX_LOCAL_ROOTS as int,
                    "discovery local roots"@,
                ),
                first(
                    roots_problem(
                        config.discovery.local_roots,
                        "discovery local root at index "@,
                        ""@,
                        "discovery local root"@,
                    ),
                    first(
                        limits_problem(config.discovery),
                        first(
                            number_problem(
                                config.retention.closed_days as int,
                                "retention closed_days"@,
                            ),
                            hosts_problem(config.hosts),
                        ),
                    ),
                ),
            ),
        )
    }
}

/// The outcome of a check is exactly the problem that there is.
pub open spec fn reports(r: Result<(), ConfigError>, problem: Option<Seq<char>>) -> bool {
    match problem {
        Some(text) => r is Err && r->Err_0@ == plain(text),
        None => r is Ok,
    }
}

/// Whether a text holds the character NUL.
fn holds_nul(text: &str) -> (r: bool)
    ensures
        r == text@.contains('\0'),
{
    let chars = chars_of(text);
    let mut i: usize = 0;
    while i < chars.len()
        invariant
            i <= chars@.len(),
            chars@ == text@,
            forall|j: int| 0 <= j < i ==> text@[j] != '\0',
        decreases chars.len() - i,
    {
        if chars[i] == '\0' {
            assert(text@[i as int] == '\0');
            return true;
        }
        i += 1;
    }
    false
}

/// Holds a text to what `nonempty_problem` says.
fn require_nonempty(value: &str, field: &str) -> (r: Result<(), ConfigError>)
    ensures
        reports(r, nonempty_problem(value@, field@)),
{
    if holds_nul(value) {
        return Err(ConfigError::new(field.to_owned().concat(" must not contain NUL")));
    }
    if is_blank(value) {
        return Err(ConfigError::new(field.to_owned().concat(" must not be empty")));
    }
    Ok(())
}

/// Holds a text to a number of bytes.
fn require_max_bytes(value: &str, max_bytes: usize, field: &str) -> (r: Result<(), ConfigError>)
    ensures
        reports(r, size_problem(value@, max_bytes as int, field@)),
{
    if byte_length(value) > max_bytes {
        return Err(
            ConfigError::new(
                field.to_owned().concat(" may contain at most ").concat(
                    decimal(max_bytes as u64).as_str(),
                ).concat(" bytes"),
            ),
        );
    }
    Ok(())
}

/// Holds a text to what `text_problem` says.
fn require_text(value: &str, place: &str, max_bytes: usize, field: &str) -> (r: Result<
    (),
    ConfigError,
>)
    ensures
        reports(r, text_problem(value@, place@, max_bytes as int, field@)),
{
    require_nonempty(value, place)?;
    require_max_bytes(value, max_bytes, field)
}

/// Holds a number to what `number_problem` says.
fn require_positive_u64(value: u64, field: &str) -> (r: Result<(), ConfigError>)
    ensures
        reports(r, number_problem(value as int, field@)),
{
    if value == 0 {
        return Err(ConfigError::new(field.to_owned().concat(" must be greater than zero")));
    }
    if value > MAX_SERIALIZABLE_INTEGER {
        return Err(ConfigError::new(field.to_owned().concat(" exceeds the maximum TOML integer")));
    }
    Ok(())
}

/// Holds a number to what `number_problem` says.
fn require_positive_usize(value: usize, field: &str) -> (r: Result<(), ConfigError>)
    ensures
        reports(r, number_problem(value as int, field@)),
{
    require_positive_u64(value as u64, field)
}

/// Holds a list to a number of entries.
fn require_count(count: usize, max: usize, field: &str) -> (r: Result<(), ConfigError>)
    ensures
        reports(r, count_problem(count as int, max as int, field@)),
{
    if count > max {
        return Err(
            ConfigError::new(
                field.to_owned().concat(" may contain at most ").concat(
                    decimal(max as u64).as_str(),
                ).concat(" entries"),
            ),
        );
    }
    Ok(())
}

/// Holds roots to what `roots_problem` says.
fn require_roots(roots: &Vec<String>, before: &str, after: &str, field: &str) -> (r: Result<
    (),
    ConfigError,
>)
    ensures
        reports(r, roots_problem(views(roots@), before@, after@, field@)),
{
    let ghost all = views(roots@);
    let mut i: usize = 0;
    while i < roots.len()
        invariant
            i <= roots@.len(),
            all == views(roots@),
            roots_problem(all.take(i as int), before@, after@, field@) is None,
        decreases roots.len() - i,
    {
        proof {
            assert(all.take(i + 1).drop_last() =~= all.take(i as int));
            assert(all.take(i + 1).last() == roots@[i as int]@);
            lemma_problem_stays(all, i + 1, before@, after@, field@);
        }
        let place = before.to_owned().concat(decimal(i as u64).as_str()).concat(after);
        require_text(roots[i].as_str(), place.as_str(), Config::MAX_STRING_BYTES, field)?;
        i += 1;
    }
    assert(all.take(i as int) =~= all);
    Ok(())
}

/// A problem of the first roots is the problem of all.
proof fn lemma_problem_stays(
    roots: Seq<Seq<char>>,
    k: int,
    before: Seq<char>,
    after: Seq<char>,
    field: Seq<char>,
)
    requires
        0 <= k <= roots.len(),
    ensures
        roots_problem(roots.take(k), before, after, field) is Some ==> roots_problem(
            roots,
            before,
            after,
            field,
        ) == roots_problem(roots.take(k), before, after, field),
    decreases roots.len(),
{
    if k < roots.len() {
        assert(roots.drop_last().take(k) =~= roots.take(k));
        lemma_problem_stays(roots.drop_last(), k, before, after, field);
    } else {
        assert(roots.take(k) =~= roots);
    }
}

/// A problem of the first presets is the problem of all.
proof fn lemma_preset_problem_stays(presets: Seq<PresetView>, k: int, host: Seq<char>)
    requires
        0 <= k <= presets.len(),
    ensures
        presets_problem(presets.take(k), host) is Some ==> presets_problem(presets, host)
            == presets_problem(presets.take(k), host),
    decreases presets.len(),
{
    if k < presets.len() {
        assert(presets.drop_last().take(k) =~= presets.take(k));
        lemma_preset_problem_stays(presets.drop_last(), k, host);
    } else {
        assert(presets.take(k) =~= presets);
    }
}

/// A problem of the first hosts is the problem of all.
proof fn lemma_host_problem_stays(hosts: Seq<HostView>, k: int)
    requires
        0 <= k <= hosts.len(),
    ensures
        hosts_problem(hosts.take(k)) is Some ==> hosts_problem(hosts)
            == hosts_problem(hosts.take(k)),
    decreases hosts.len(),
{
    if k < hosts.len() {
        assert(hosts.drop_last().take(k) =~= hosts.take(k));
        lemma_host_problem_stays(hosts.drop_last(), k);
    } else {
        assert(hosts.take(k) =~= hosts);
    }
}

/// Whether one of the first `count` presets has the given name.
fn has_preset(presets: &Vec<CommandPreset>, count: usize, name: &str) -> (r: bool)
    requires
        count <= presets@.len(),
    ensures
        r == preset_named(preset_views(presets@).take(count as int), name@),
{
    let ghost all = preset_views(presets@).take(count as int);
    let mut i: usize = 0;
    while i < count
        invariant
            i <= count <= presets@.len(),
            all == preset_views(presets@).take(count as int),
            forall|j: int| 0 <= j < i ==> (#[trigger] all[j]).name != name@,
        decreases count - i,
    {
        assert(all[i as int] == presets@[i as int]@);
        if same_text(presets[i].name.as_str(), name) {
            return true;
        }
        i += 1;
    }
    false
}

/// Whether one of the first `count` hosts has the given name.
fn has_host(hosts: &Vec<HostConfig>, count: usize, name: &str) -> (r: bool)
    requires
        count <= hosts@.len(),
    ensures
        r == host_named(host_views(hosts@).take(count as int), name@),
{
    let ghost all = host_views(hosts@).take(count as int);
    let mut i: usize = 0;
    while i < count
        invariant
            i <= count <= hosts@.len(),
            all == host_views(hosts@).take(count as int),
            forall|j: int| 0 <= j < i ==> (#[trigger] all[j]).name != name@,
        decreases count - i,
    {
        assert(all[i as int] == hosts@[i as int]@);
        if same_text(hosts[i].name.as_str(), name) {
            return true;
        }
        i += 1;
    }
    false
}

/// The lowercase form of an ASCII letter.
fn lower(c: char) -> (r: char)
    ensures
        r == lowered(c),
{
    match c {
        'A' => 'a',
        'B' => 'b',
        'C' => 'c',
        'D' => 'd',
        'E' => 'e',
        'F' => 'f',
        'G' => 'g',
        'H' => 'h',
        'I' => 'i',
        'J' => 'j',
        'K' => 'k',
        'L' => 'l',
        'M' => 'm',
        'N' => 'n',
        'O' => 'o',
        'P' => 'p',
        'Q' => 'q',
        'R' => 'r',
        'S' => 's',
        'T' => 't',
        'U' => 'u',
        'V' => 'v',
        'W' => 'w',
        'X' => 'x',
        'Y' => 'y',
        'Z' => 'z',
        _ => c,
    }
}

/// Whether the name stands for this machine, whatever the case of its letters.
pub fn is_reserved_name(name: &str) -> (r: bool)
    ensures
        r == reserved_name(name@),
{
    let chars = chars_of(name);
    let mut text = String::new();
    let mut i: usize = 0;
    let ghost whole = name@.map_values(|c: char| lowered(c));
    while i < chars.len()
        invariant
            i <= chars@.len(),
            chars@ == name@,
            whole == name@.map_values(|c: char| lowered(c)),
            text@ == whole.take(i as int),
        decreases chars.len() - i,
    {
        text.push(lower(chars[i]));
        i += 1;
        assert(whole.take(i as int) =~= whole.take(i - 1).push(whole[i - 1]));
    }
    assert(whole.take(i as int) =~= whole);
    same_text(text.as_str(), "local")
}

/// Holds one preset to what `preset_problem` says.
fn require_preset(presets: &Vec<CommandPreset>, at: usize, host: &str) -> (r: Result<
    (),
    ConfigError,
>)
    requires
        at < presets@.len(),
    ensures
        reports(
            r,
            preset_problem(
                preset_views(presets@).take(at as int),
                preset_views(presets@)[at as int],
                host@,
            ),
        ),
{
    let preset = &presets[at];
    assert(preset_views(presets@)[at as int] == preset@);
    let place = "preset at index ".to_owned().concat(decimal(at as u64).as_str()).concat(
        " for host `",
    ).concat(host).concat("` name");
    require_text(
        preset.name.as_str(),
        place.as_str(),
        Config::MAX_STRING_BYTES,
        "preset name",
    )?;
    if has_preset(presets, at, preset.name.as_str()) {
        return Err(
            ConfigError::new(
                "duplicate preset name `".to_owned().concat(preset.name.as_str()).concat(
                    "` for host `",
                ).concat(host).concat("`"),
            ),
        );
    }
    let named = "preset `".to_owned().concat(preset.name.as_str()).concat("` for host `").concat(
        host,
    );
    let place = named.clone().concat("` command");
    require_text(
        preset.command.as_str(),
        place.as_str(),
        CommandPreset::MAX_COMMAND_BYTES,
        "preset command",
    )?;
    match &preset.health_command {
        Some(command) => {
            let place = named.concat("` health command");
            require_text(
                command.as_str(),
                place.as_str(),
                CommandPreset::MAX_COMMAND_BYTES,
                "preset health command",
            )
        },
        None => Ok(()),
    }
}

/// Holds presets to what `presets_problem` says.
fn require_presets(presets: &Vec<CommandPreset>, host: &str) -> (r: Result<(), ConfigError>)
    ensures
        reports(r, presets_problem(preset_views(presets@), host@)),
{
    let ghost all = preset_views(presets@);
    let mut i: usize = 0;
    while i < presets.len()
        invariant
            i <= presets@.len(),
            all == preset_views(presets@),
            presets_problem(all.take(i as int), host@) is None,
        decreases presets.len() - i,
    {
        proof {
            assert(all.take(i + 1).drop_last() =~= all.take(i as int));
            assert(all.take(i + 1).last() == all[i as int]);
            lemma_preset_problem_stays(all, i + 1, host@);
        }
        require_preset(presets, i, host)?;
        i += 1;
    }
    assert(all.take(i as int) =~= all);
    Ok(())
}

/// Holds one host to what `host_problem` says.
fn require_host(hosts: &Vec<HostConfig>, at: usize) -> (r: Result<
    (),
    ConfigError,
>)
    requires
        at < hosts@.len(),
    ensures
        reports(
            r,
            host_problem(
                host_views(hosts@).take(at as int),
                host_views(hosts@)[at as int],
            ),
        ),
{
    let host = &hosts[at];
    assert(host_views(hosts@)[at as int] == host@);
    require_count(host.roots.len(), HostConfig::MAX_ROOTS, "host roots")?;
    require_count(host.presets.len(), HostConfig::MAX_PRESETS, "host presets")?;
    let place = "host at index ".to_owned().concat(decimal(at as u64).as_str()).concat(" name");
    require_text(host.name.as_str(), place.as_str(), Config::MAX_STRING_BYTES, "name")?;
    if is_reserved_name(host.name.as_str()) {
        return Err(
            ConfigError::new(
                "host name `".to_owned().concat(host.name.as_str()).concat("` is reserved"),
            ),
        );
    }
    if has_host(hosts, at, host.name.as_str()) {
        return Err(
            ConfigError::new(
                "duplicate host name `".to_owned().concat(host.name.as_str()).concat("`"),
            ),
        );
    }
    let place = "host `".to_owned().concat(host.name.as_str()).concat("` target");
    require_text(host.target.as_str(), place.as_str(), Config::MAX_STRING_BYTES, "target")?;
    if parse_target(host.target.as_str()).is_none() {
        return Err(
            ConfigError::new(
                "invalid target for host `".to_owned().concat(host.name.as_str()).concat("`"),
            ),
        );
    }
    let after = " for host `".to_owned().concat(host.name.as_str()).concat("`");
    require_roots(&host.roots, "root at index ", after.as_str(), "root")?;
    require_presets(&host.presets, host.name.as_str())
}

/// Holds hosts to what `hosts_problem` says.
fn require_hosts(hosts: &Vec<HostConfig>) -> (r: Result<(), ConfigError>)
    ensures
        reports(r, hosts_problem(host_views(hosts@))),
{
    let ghost all = host_views(hosts@);
    let mut i: usize = 0;
    while i < hosts.len()
        invariant
            i <= hosts@.len(),
            all == host_views(hosts@),
            hosts_problem(all.take(i as int)) is None,
        decreases hosts.len() - i,
    {
        proof {
            assert(all.take(i + 1).drop_last() =~= all.take(i as int));
            assert(all.take(i + 1).last() == all[i as int]);
            lemma_host_problem_stays(all, i + 1);
        }
        require_host(hosts, i)?;
        i += 1;
    }
    assert(all.take(i as int) =~= all);
    Ok(())
}

/// Holds the limits of a search to what `limits_problem` says.
fn require_limits(discovery: &DiscoveryDefaults) -> (r: Result<(), ConfigError>)
    ensures
        reports(r, limits_problem(discovery@)),
{
    require_positive_usize(discovery.max_depth, "discovery max_depth")?;
    require_positive_usize(discovery.max_entries, "discovery max_entries")?;
    require_positive_usize(discovery.max_results, "discovery max_results")?;
    require_positive_u64(discovery.timeout_seconds, "discovery timeout_seconds")?;
    if discovery.timeout_seconds > MAX_TIMEOUT_SECONDS {
        return Err(ConfigError::new("discovery timeout_seconds must be at most 3600".to_owned()));
    }
    require_positive_usize(discovery.workers, "discovery workers")
}

/// A configuration with one more host.
pub open spec fn with_host(config: ConfigView, host: HostView) -> ConfigView {
    ConfigView { hosts: config.hosts.push(host), ..config }
}

/// Why a host is not added.
pub open spec fn addition_problem(config: ConfigView, host: HostView) -> Option<Seq<char>> {
    if host_named(config.hosts, host.name) {
        Some("host `"@ + host.name + "` already exists"@)
    } else {
        config_problem(with_host(config, host))
    }
}

/// The position of the first host of a name.
pub open spec fn host_position(hosts: Seq<HostView>, name: Seq<char>) -> Option<int>
    decreases hosts.len(),
{
    if hosts.len() == 0 {
        None
    } else {
        match host_position(hosts.drop_last(), name) {
            Some(at) => Some(at),
            None => if hosts.last().name == name {
                Some(hosts.len() - 1)
            } else {
                None
            },
        }
    }
}

/// A host is found where its name first stands, if it stands anywhere.
pub proof fn host_position_finds(hosts: Seq<HostView>, name: Seq<char>)
    ensures
        match host_position(hosts, name) {
            Some(at) => 0 <= at < hosts.len() && hosts[at].name == name && !host_named(
                hosts.take(at),
                name,
            ),
            None => !host_named(hosts, name),
        },
    decreases hosts.len(),
{
    if hosts.len() > 0 {
        let front = hosts.drop_last();
        host_position_finds(front, name);
        match host_position(front, name) {
            Some(at) => {
                assert(front.take(at) =~= hosts.take(at));
            },
            None => {
                assert(hosts.take(hosts.len() - 1) =~= front);
                assert forall|i: int| 0 <= i < front.len() implies (#[trigger] hosts[i]).name
                    != name by {
                    assert(front[i] == hosts[i]);
                }
            },
        }
    }
}

/// The host that an SSH alias stands for.
pub open spec fn alias_host(alias: Seq<char>) -> HostView {
    HostView { name: alias, target: alias, roots: Seq::empty(), presets: Seq::empty() }
}

/// The hosts with those aliases behind them whose names are not taken.
pub open spec fn with_aliases(hosts: Seq<HostView>, aliases: Seq<Seq<char>>) -> Seq<HostView>
    decreases aliases.len(),
{
    if aliases.len() == 0 {
        hosts
    } else {
        let before = with_aliases(hosts, aliases.drop_last());
        if host_named(before, aliases.last()) {
            before
        } else {
            before.push(alias_host(aliases.last()))
        }
    }
}

impl Config {
    pub const CURRENT_VERSION: u32 = 3;

    pub const MAX_HOSTS: usize = 256;

    pub const MAX_STRING_BYTES: usize = 16_384;

    /// Adds a host behind the others. Nothing changes if it is refused.
    pub fn add_host(&mut self, host: HostConfig) -> (r: Result<(), ConfigError>)
        ensures
            reports(r, addition_problem(old(self)@, host@)),
            final(self)@ == if r is Ok {
                with_host(old(self)@, host@)
            } else {
                old(self)@
            },
    {
        let ghost known = self@;
        let ghost added = host@;
        assert(known.hosts.take(known.hosts.len() as int) =~= known.hosts);
        if has_host(&self.hosts, self.hosts.len(), host.name.as_str()) {
            return Err(
                ConfigError::new(
                    "host `".to_owned().concat(host.name.as_str()).concat("` already exists"),
                ),
            );
        }
        self.hosts.push(host);
        assert(self@ =~= with_host(known, added)) by {
            assert(host_views(self.hosts@) =~= known.hosts.push(added));
        }
        match self.validate() {
            Ok(()) => Ok(()),
            Err(error) => {
                let _ = self.hosts.pop();
                assert(self@ =~= known) by {
                    assert(host_views(self.hosts@) =~= known.hosts);
                }
                Err(error)
            },
        }
    }

    /// Appends discovered SSH aliases after configured hosts without allowing
    /// aliases to shadow a configured host name.
    pub fn append_alias_hosts(&mut self, aliases: &Vec<String>)
        ensures
            final(self)@ == (ConfigView {
                hosts: with_aliases(old(self)@.hosts, views(aliases@)),
                ..old(self)@
            }),
    {
        let ghost known = self@;
        let ghost all = views(aliases@);
        let mut i: usize = 0;
        while i < aliases.len()
            invariant
                i <= aliases@.len(),
                all == views(aliases@),
                known == old(self)@,
                self@ == (ConfigView {
                    hosts: with_aliases(known.hosts, all.take(i as int)),
                    ..known
                }),
            decreases aliases.len() - i,
        {
            let alias = &aliases[i];
            let ghost before = self@.hosts;
            proof {
                assert(all.take(i + 1).drop_last() =~= all.take(i as int));
                assert(all.take(i + 1).last() == alias@);
                assert(before.take(before.len() as int) =~= before);
            }
            if !has_host(&self.hosts, self.hosts.len(), alias.as_str()) {
                let roots: Vec<String> = Vec::new();
                let presets: Vec<CommandPreset> = Vec::new();
                let host = HostConfig {
                    name: alias.clone(),
                    target: alias.clone(),
                    roots,
                    presets,
                };
                assert(host@ =~= alias_host(alias@)) by {
                    assert(views(host.roots@) =~= Seq::empty());
                    assert(preset_views(host.presets@) =~= Seq::empty());
                }
                self.hosts.push(host);
                assert(host_views(self.hosts@) =~= before.push(alias_host(alias@)));
            }
            i += 1;
        }
        assert(all.take(i as int) =~= all);
    }

    /// Removes the first host of a name, and says whether there was one.
    pub fn remove_host(&mut self, name: &str) -> (removed: bool)
        ensures
            match host_position(old(self)@.hosts, name@) {
                Some(at) => removed && final(self)@ == (ConfigView {
                    hosts: old(self)@.hosts.remove(at),
                    ..old(self)@
                }),
                None => !removed && final(self)@ == old(self)@,
            },
    {
        let ghost known = self@;
        let mut i: usize = 0;
        while i < self.hosts.len()
            invariant
                i <= self.hosts@.len(),
                self@ == known,
                known == old(self)@,
                host_position(known.hosts.take(i as int), name@) is None,
            decreases self.hosts.len() - i,
        {
            proof {
                assert(known.hosts.take(i + 1).drop_last() =~= known.hosts.take(i as int));
                assert(known.hosts.take(i + 1).last() == self.hosts@[i as int]@);
            }
            if same_text(self.hosts[i].name.as_str(), name) {
                proof {
                    lemma_position_stays(known.hosts, i + 1, name@);
                }
                let _ = self.hosts.remove(i);
                assert(host_views(self.hosts@) =~= known.hosts.remove(i as int));
                return true;
            }
            i += 1;
        }
        assert(known.hosts.take(i as int) =~= known.hosts);
        false
    }

    /// Checks the configuration, and reports the first thing that is wrong.
    pub fn validate(&self) -> (r: Result<(), ConfigError>)
        ensures
            reports(r, config_problem(self@)),
    {
        if self.version != Self::CURRENT_VERSION {
            return Err(
                ConfigError::new(
                    "unsupported config version ".to_owned().concat(
                        decimal(self.version as u64).as_str(),
                    ).concat("; expected ").concat(
                        decimal(Self::CURRENT_VERSION as u64).as_str(),
                    ),
                ),
            );
        }
        require_count(self.hosts.len(), Self::MAX_HOSTS, "config hosts")?;
        require_count(
            self.discovery.local_roots.len(),
            DiscoveryDefaults::MAX_LOCAL_ROOTS,
            "discovery local roots",
        )?;
        require_roots(
            &self.discovery.local_roots,
            "discovery local root at index ",
            "",
            "discovery local root",
        )?;
        require_limits(&self.discovery)?;
        require_positive_u64(self.retention.closed_days, "retention closed_days")?;
        require_hosts(&self.hosts)
    }
}

/// A host that is found among the first ones is found among all.
proof fn lemma_position_stays(hosts: Seq<HostView>, k: int, name: Seq<char>)
    requires
        0 <= k <= hosts.len(),
    ensures
        host_position(hosts.take(k), name) is Some ==> host_position(hosts, name) == host_position(
            hosts.take(k),
            name,
        ),
    decreases hosts.len(),
{
    if k < hosts.len() {
        assert(hosts.drop_last().take(k) =~= hosts.take(k));
        lemma_position_stays(hosts.drop_last(), k, name);
    } else {
        assert(hosts.take(k) =~= hosts);
    }
}

/// A configuration without hosts.
pub open spec fn default_config() -> ConfigView {
    ConfigView {
        version: Config::CURRENT_VERSION as int,
        hosts: Seq::empty(),
        ui: UiDefaults { placement: Placement::SplitRight },
        notifications: default_notifications(),
        discovery: default_discovery(),
        retention: RetentionDefaults { closed_days: 30 },
    }
}

impl Default for Config {
    fn default() -> (config: Self)
        ensures
            config@ == default_config(),
    {
        let hosts: Vec<HostConfig> = Vec::new();
        assert(host_views(hosts@) =~= Seq::empty());
        Config {
            version: Config::CURRENT_VERSION,
            hosts,
            ui: UiDefaults::default(),
            notifications: NotificationDefaults::default(),
            discovery: DiscoveryDefaults::default(),
            retention: RetentionDefaults::default(),
        }
    }
}

/// The default configuration is in order.
pub proof fn default_config_is_valid()
    ensures
        config_problem(default_config()) is None,
{
}

/// No two hosts of a configuration in order share a name, and none is named
/// like this machine.
pub proof fn valid_hosts_have_names_of_their_own(
    config: ConfigView,
    a: int,
    b: int,
)
    requires
        config_problem(config) is None,
        0 <= a < b < config.hosts.len(),
    ensures
        config.hosts[a].name != config.hosts[b].name,
        !reserved_name(config.hosts[a].name),
        !reserved_name(config.hosts[b].name),
{
    lemma_hosts_part(config.hosts, a);
    lemma_hosts_part(config.hosts, b);
    assert(config.hosts.take(b)[a] == config.hosts[a]);
}

/// Every host of a list in order is in order behind those before it.
proof fn lemma_hosts_part(hosts: Seq<HostView>, k: int)
    requires
        hosts_problem(hosts) is None,
        0 <= k < hosts.len(),
    ensures
        host_problem(hosts.take(k), hosts[k]) is None,
    decreases hosts.len(),
{
    if k < hosts.len() - 1 {
        lemma_hosts_part(hosts.drop_last(), k);
        assert(hosts.drop_last().take(k) =~= hosts.take(k));
    } else {
        assert(hosts.drop_last() =~= hosts.take(k));
    }
}

/// A configuration in order stays in order when a host is removed.
pub proof fn removing_a_host_keeps_the_config_valid(
    config: ConfigView,
    at: int,
)
    requires
        config_problem(config) is None,
        0 <= at < config.hosts.len(),
    ensures
        config_problem(ConfigView { hosts: config.hosts.remove(at), ..config }) is None,
{
    lemma_removed_host(config.hosts, at);
}

/// A list in order stays in order when one of its hosts is removed.
proof fn lemma_removed_host(hosts: Seq<HostView>, at: int)
    requires
        hosts_problem(hosts) is None,
        0 <= at < hosts.len(),
    ensures
        hosts_problem(hosts.remove(at)) is None,
    decreases hosts.len(),
{
    let front = hosts.drop_last();
    if at == hosts.len() - 1 {
        assert(hosts.remove(at) =~= front);
    } else {
        lemma_removed_host(front, at);
        let rest = hosts.remove(at);
        assert(rest.drop_last() =~= front.remove(at));
        assert(rest.last() == hosts.last());
        let fewer = front.remove(at);
        assert(!host_named(fewer, hosts.last().name)) by {
            assert(!host_named(front, hosts.last().name));
            assert forall|i: int| 0 <= i < fewer.len() implies (#[trigger] fewer[i]).name
                != hosts.last().name by {
                let j = if i < at {
                    i
                } else {
                    i + 1
                };
                assert(fewer[i] == front[j]);
            }
        }
        assert(host_problem(front, hosts.last()) is None);
        assert(host_problem(fewer, hosts.last()) is None);
    }
}

/// A character that could break a line or reorder one: a control character, a
/// line or paragraph separator, or a zero-width or bidirectional formatting
/// character.
pub open spec fn misleading(c: char) -> bool {
    let code = c as u32;
    ||| control(c)
    ||| code == 0x061c
    ||| code == 0x2028
    ||| code == 0x2029
    ||| 0x200b <= code <= 0x200f
    ||| 0x202a <= code <= 0x202e
    ||| 0x2060 <= code <= 0x206f
    ||| code == 0xfeff
}

/// How one character of configured text is shown.
pub open spec fn shown_char(c: char) -> Seq<char> {
    if c == '\n' {
        seq!['\\', 'n']
    } else if c == '\t' {
        seq!['\\', 't']
    } else if c == '\r' {
        seq!['\\', 'r']
    } else if misleading(c) {
        seq!['\\', 'u', '{'] + hex_text(c as u32 as nat, 4) + seq!['}']
    } else {
        seq![c]
    }
}

/// How configured text is shown.
pub open spec fn shown_config_text(text: Seq<char>) -> Seq<char>
    decreases text.len(),
{
    if text.len() == 0 {
        Seq::empty()
    } else {
        shown_config_text(text.drop_last()) + shown_char(text.last())
    }
}

/// Shown text holds nothing that could break a line or reorder one.
pub proof fn shown_config_text_is_plain(text: Seq<char>)
    ensures
        forall|i: int|
            0 <= i < shown_config_text(text).len() ==> !misleading(
                #[trigger] shown_config_text(text)[i],
            ),
    decreases text.len(),
{
    if text.len() > 0 {
        shown_config_text_is_plain(text.drop_last());
        let last = shown_char(text.last());
        assert forall|i: int| 0 <= i < last.len() implies !misleading(#[trigger] last[i]) by {
            let digits = hex_text(text.last() as u32 as nat, 4);
            lemma_hex_digits(text.last() as u32 as nat, 4);
            if misleading(text.last()) && last.len() == 8 && 3 <= i < 7 {
                assert(last[i] == digits[i - 3]);
            }
        }
        let front = shown_config_text(text.drop_last());
        let whole = shown_config_text(text);
        assert forall|i: int| 0 <= i < whole.len() implies !misleading(#[trigger] whole[i]) by {
            if i < front.len() {
                assert(whole[i] == front[i]);
            } else {
                assert(whole[i] == last[i - front.len()]);
            }
        }
    }
}

/// Text that could mislead nobody is shown as it is.
pub proof fn plain_config_text_is_kept(text: Seq<char>)
    requires
        forall|i: int| 0 <= i < text.len() ==> !misleading(#[trigger] text[i]),
    ensures
        shown_config_text(text) == text,
    decreases text.len(),
{
    if text.len() > 0 {
        let front = text.drop_last();
        assert forall|i: int| 0 <= i < front.len() implies !misleading(#[trigger] front[i]) by {
            assert(front[i] == text[i]);
        }
        plain_config_text_is_kept(front);
        assert(!misleading(text[text.len() - 1]));
        assert(front + seq![text.last()] =~= text);
    }
}

/// The lowercase hexadecimal digit of value `d`.
fn hex_digit(d: u32) -> (c: char)
    requires
        d < 16,
    ensures
        c == crate::uuids::hex_char(d as nat),
{
    match d {
        0 => '0',
        1 => '1',
        2 => '2',
        3 => '3',
        4 => '4',
        5 => '5',
        6 => '6',
        7 => '7',
        8 => '8',
        9 => '9',
        10 => 'a',
        11 => 'b',
        12 => 'c',
        13 => 'd',
        14 => 'e',
        _ => 'f',
    }
}

/// Whether a character could break a line or reorder one.
fn is_misleading(c: char) -> (r: bool)
    ensures
        r == misleading(c),
{
    let code: u32 = c as u32;
    is_control(c) || code == 0x061c || code == 0x2028 || code == 0x2029 || (0x200b <= code && code
        <= 0x200f) || (0x202a <= code && code <= 0x202e) || (0x2060 <= code && code
        <= 0x206f) || code == 0xfeff
}

/// Adds the four hexadecimal digits of `code` behind `text`.
fn push_hex(text: &mut String, code: u32)
    ensures
        final(text)@ == old(text)@ + hex_text(code as nat, 4),
{
    let ghost before = text@;
    text.push(hex_digit(code / 4096 % 16));
    text.push(hex_digit(code / 256 % 16));
    text.push(hex_digit(code / 16 % 16));
    text.push(hex_digit(code % 16));
    proof {
        let n = code as nat;
        reveal_with_fuel(hex_text, 5);
        assert(n / 16 / 16 == n / 256);
        assert(n / 256 / 16 == n / 4096);
        assert(text@ =~= before + hex_text(n, 4));
    }
}

/// Configured text with anything that could break a line or reorder one made
/// visible.
///
/// Names, targets, and command bodies are held to a length and to being
/// unique, never to characters, and a configuration file is text a user may
/// not have written. Every surface that shows configured text to a person goes
/// through this.
pub fn escaped_config_text(text: &str) -> (shown: String)
    ensures
        shown@ == shown_config_text(text@),
{
    let chars = chars_of(text);
    let mut shown = String::new();
    let mut i: usize = 0;
    while i < chars.len()
        invariant
            i <= chars@.len(),
            chars@ == text@,
            shown@ == shown_config_text(text@.take(i as int)),
        decreases chars.len() - i,
    {
        let c = chars[i];
        let ghost before = shown@;
        if c == '\n' {
            shown.push('\\');
            shown.push('n');
        } else if c == '\t' {
            shown.push('\\');
            shown.push('t');
        } else if c == '\r' {
            shown.push('\\');
            shown.push('r');
        } else if is_misleading(c) {
            shown.push('\\');
            shown.push('u');
            shown.push('{');
            push_hex(&mut shown, c as u32);
            shown.push('}');
        } else {
            shown.push(c);
        }
        assert(shown@ =~= before + shown_char(c));
        assert(text@.take(i + 1).drop_last() =~= text@.take(i as int));
        i += 1;
    }
    assert(text@.take(i as int) =~= text@);
    shown
}

} // verus!
