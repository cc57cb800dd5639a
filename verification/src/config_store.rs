//! The configuration file: which schema it is written in, how older schemas
//! are brought up to date, and what may be written back.

use vstd::prelude::*;
use vstd::string::*;

use crate::config::{
    config_problem, default_config, default_discovery, default_notifications, host_views, reports,
    Config, ConfigError, ConfigView, DiscoveryDefaults, HostConfig, HostView, NotificationDefaults,
    RetentionDefaults, UiDefaults,
};
use crate::document::{is_key, StepView};
use crate::failure::{led_to, plain, Failure, FailureView};
use crate::model::Placement;
use crate::text::{byte_len, byte_length, decimal, numeral, signed_numeral, views};
use crate::toml_text::{
    leaf_views, parse_toml, toml_leaves, LeafView, ScalarView, TomlLeaf, TomlScalar,
};

verus! {

/// Schema 2: no notifications yet.
#[derive(Debug, PartialEq, Eq)]
pub struct ConfigV2 {
    pub version: u32,
    pub hosts: Vec<HostConfig>,
    pub ui: UiDefaults,
    pub discovery: DiscoveryDefaults,
    pub retention: RetentionDefaults,
}

/// Schema 1: neither discovery nor retention yet.
#[derive(Debug, PartialEq, Eq)]
pub struct ConfigV1 {
    pub version: u32,
    pub hosts: Vec<HostConfig>,
    pub ui: UiDefaults,
}

/// Schema 0: hosts without presets.
#[derive(Debug, PartialEq, Eq)]
pub struct ConfigV0 {
    pub version: u32,
    pub hosts: Vec<HostConfigV0>,
}

/// A host of schema 0.
#[derive(Debug, PartialEq, Eq)]
pub struct HostConfigV0 {
    pub name: String,
    pub target: String,
    pub roots: Vec<String>,
}

impl View for HostConfigV0 {
    type V = HostView;

    open spec fn view(&self) -> HostView {
        HostView {
            name: self.name@,
            target: self.target@,
            roots: views(self.roots@),
            presets: Seq::empty(),
        }
    }
}

/// The contents of each host of schema 0.
pub open spec fn early_host_views(hosts: Seq<HostConfigV0>) -> Seq<HostView> {
    hosts.map_values(|host: HostConfigV0| host@)
}

impl ConfigV2 {
    /// The configuration of the current schema: all that was there, and the
    /// defaults of what was not.
    pub open spec fn migrated(self) -> ConfigView {
        ConfigView {
            version: Config::CURRENT_VERSION as int,
            hosts: host_views(self.hosts@),
            ui: self.ui,
            notifications: default_notifications(),
            discovery: self.discovery@,
            retention: self.retention,
        }
    }

    /// Brings the configuration up to date.
    pub fn migrate(self) -> (config: Config)
        ensures
            config@ == self.migrated(),
    {
        Config {
            version: Config::CURRENT_VERSION,
            hosts: self.hosts,
            ui: self.ui,
            notifications: NotificationDefaults::default(),
            discovery: self.discovery,
            retention: self.retention,
        }
    }
}

/// A configuration of the current schema with the given hosts and interface,
/// and the defaults of all else.
pub open spec fn with_defaults(hosts: Seq<HostView>, ui: UiDefaults) -> ConfigView {
    ConfigView {
        version: Config::CURRENT_VERSION as int,
        hosts,
        ui,
        notifications: default_notifications(),
        discovery: default_discovery(),
        retention: RetentionDefaults { closed_days: 30 },
    }
}

impl ConfigV1 {
    /// Brings the configuration up to date.
    pub fn migrate(self) -> (config: Config)
        ensures
            config@ == with_defaults(host_views(self.hosts@), self.ui),
    {
        Config {
            version: Config::CURRENT_VERSION,
            hosts: self.hosts,
            ui: self.ui,
            notifications: NotificationDefaults::default(),
            discovery: DiscoveryDefaults::default(),
            retention: RetentionDefaults::default(),
        }
    }
}

/// A host of schema 0 in the current schema.
fn early_host(host: HostConfigV0) -> (migrated: HostConfig)
    ensures
        migrated@ == host@,
{
    let migrated = HostConfig {
        name: host.name,
        target: host.target,
        roots: host.roots,
        presets: Vec::new(),
    };
    assert(migrated@ =~= host@) by {
        assert(migrated@.presets =~= Seq::empty());
    }
    migrated
}

impl ConfigV0 {
    /// Brings the configuration to the next schema.
    pub fn migrate(self) -> (config: ConfigV1)
        ensures
            config.version == 1,
            host_views(config.hosts@) == early_host_views(self.hosts@),
            config.ui == (UiDefaults { placement: Placement::SplitRight }),
    {
        let ghost all = early_host_views(self.hosts@);
        let mut rest = self.hosts;
        let mut hosts: Vec<HostConfig> = Vec::new();
        while rest.len() > 0
            invariant
                all == early_host_views(self.hosts@),
                all == host_views(hosts@) + early_host_views(rest@),
            decreases rest.len(),
        {
            let ghost done = host_views(hosts@);
            let ghost left = early_host_views(rest@);
            let host = rest.remove(0);
            let ghost shown = host@;
            assert(shown == left[0]);
            hosts.push(early_host(host));
            assert(host_views(hosts@) =~= done.push(shown));
            assert(early_host_views(rest@) =~= left.drop_first());
            assert(all =~= host_views(hosts@) + early_host_views(rest@));
        }
        assert(all =~= host_views(hosts@));
        ConfigV1 { version: 1, hosts, ui: UiDefaults::default() }
    }
}

/// A configuration file as it was decoded.
#[derive(Debug, PartialEq, Eq)]
pub enum DecodedConfig {
    /// There is no file.
    Missing,
    V0(ConfigV0),
    V1(ConfigV1),
    V2(ConfigV2),
    Current(Config),
}

impl DecodedConfig {
    /// The configuration of the current schema.
    pub open spec fn current(self) -> ConfigView {
        match self {
            DecodedConfig::Missing => default_config(),
            DecodedConfig::V0(config) => with_defaults(
                early_host_views(config.hosts@),
                UiDefaults { placement: Placement::SplitRight },
            ),
            DecodedConfig::V1(config) => with_defaults(host_views(config.hosts@), config.ui),
            DecodedConfig::V2(config) => config.migrated(),
            DecodedConfig::Current(config) => config@,
        }
    }

    /// The file is written in an older schema.
    pub open spec fn outdated(self) -> bool {
        !(self is Missing || self is Current)
    }
}

/// The schema that a configuration file is written in.
#[derive(Clone, Copy, Debug, PartialEq, Eq, Structural)]
pub enum ConfigSchema {
    V0,
    V1,
    V2,
    Current,
}

/// A configuration that was loaded.
#[derive(Debug, PartialEq, Eq)]
pub struct LoadedConfig {
    pub config: Config,
    /// Whether the file is to be written anew in the current schema.
    pub rewrite: bool,
}

/// The version that a document gives: the integer under the key `version`.
pub open spec fn version_in(leaves: Seq<LeafView>) -> Option<int>
    decreases leaves.len(),
{
    if leaves.len() == 0 {
        None
    } else {
        match version_in(leaves.drop_last()) {
            Some(version) => Some(version),
            None => {
                let leaf = leaves.last();
                match leaf.value {
                    ScalarView::Integer(version) => if leaf.path == seq![
                        StepView::Key("version"@),
                    ] {
                        Some(version)
                    } else {
                        None
                    },
                    _ => None,
                }
            },
        }
    }
}

/// A version that is found in the first leaves is the version of all.
proof fn lemma_version_stays(leaves: Seq<LeafView>, k: int)
    requires
        0 <= k <= leaves.len(),
    ensures
        version_in(leaves.take(k)) is Some ==> version_in(leaves) == version_in(leaves.take(k)),
    decreases leaves.len(),
{
    if k < leaves.len() {
        assert(leaves.drop_last().take(k) =~= leaves.take(k));
        lemma_version_stays(leaves.drop_last(), k);
    } else {
        assert(leaves.take(k) =~= leaves);
    }
}

/// Whether a leaf stands under the key `version` of the document itself.
fn is_version_leaf(leaf: &TomlLeaf) -> (r: bool)
    ensures
        r == (leaf@.path == seq![StepView::Key("version"@)]),
{
    let ghost wanted = seq![StepView::Key("version"@)];
    if leaf.path.len() != 1 {
        assert(leaf@.path.len() != wanted.len());
        return false;
    }
    let r = is_key(&leaf.path[0], "version");
    proof {
        assert(leaf@.path[0] == leaf.path@[0]@);
        if r {
            assert(leaf@.path =~= wanted);
        } else {
            assert(wanted[0] != leaf@.path[0]);
        }
    }
    r
}

/// The version that a document gives.
pub fn find_version(leaves: &Vec<TomlLeaf>) -> (version: Option<i64>)
    ensures
        match version {
            Some(version) => version_in(leaf_views(leaves@)) == Some(version as int),
            None => version_in(leaf_views(leaves@)) is None,
        },
{
    let ghost all = leaf_views(leaves@);
    let mut i: usize = 0;
    while i < leaves.len()
        invariant
            i <= leaves@.len(),
            all == leaf_views(leaves@),
            version_in(all.take(i as int)) is None,
        decreases leaves.len() - i,
    {
        let leaf = &leaves[i];
        proof {
            assert(all.take(i + 1).drop_last() =~= all.take(i as int));
            assert(all.take(i + 1).last() == leaf@);
            lemma_version_stays(all, i + 1);
        }
        let at_version = is_version_leaf(leaf);
        match &leaf.value {
            TomlScalar::Integer(version) => {
                if at_version {
                    return Some(*version);
                }
            },
            _ => {},
        }
        i += 1;
    }
    assert(all.take(i as int) =~= all);
    None
}

/// The schema of a version, if it is supported.
pub open spec fn schema_of(version: int) -> Option<ConfigSchema> {
    if version == 0 {
        Some(ConfigSchema::V0)
    } else if version == 1 {
        Some(ConfigSchema::V1)
    } else if version == 2 {
        Some(ConfigSchema::V2)
    } else if version == 3 {
        Some(ConfigSchema::Current)
    } else {
        None
    }
}

/// The numeral of a version, which may be negative.
fn version_text(version: i64) -> (text: String)
    ensures
        text@ == signed_numeral(version as int),
{
    if version < 0 {
        let mut text = String::new();
        text.push('-');
        let magnitude: u64 = (-(version as i128)) as u64;
        let text = text.concat(decimal(magnitude).as_str());
        assert(text@ =~= seq!['-'] + numeral((-version) as nat));
        text
    } else {
        decimal(version as u64)
    }
}

/// What a reader is told of a file that is too large.
pub open spec fn too_large_text() -> Seq<char> {
    "config input may contain at most "@ + numeral(ConfigStore::MAX_INPUT_BYTES as nat) + " bytes"@
}

/// What is said of a configuration whose text is too large to be written.
pub open spec fn oversized_text() -> Seq<char> {
    "serialized config may contain at most "@ + numeral(ConfigStore::MAX_PERSISTED_BYTES as nat)
        + " bytes"@
}

/// The schema of a configuration file, or why it cannot be decoded.
pub open spec fn schema_decision(path: Seq<char>, source: Seq<char>) -> Result<
    ConfigSchema,
    FailureView,
> {
    if byte_len(source) > ConfigStore::MAX_INPUT_BYTES {
        Err(plain(too_large_text()))
    } else {
        match toml_leaves(source) {
            Err(reason) => Err(led_to("parse config `"@ + path + "` as TOML"@, plain(reason))),
            Ok(leaves) => schema_in(path, leaves),
        }
    }
}

/// The schema that a document gives, or why there is none.
pub open spec fn schema_in(path: Seq<char>, leaves: Seq<LeafView>) -> Result<
    ConfigSchema,
    FailureView,
> {
    match version_in(leaves) {
        None => Err(plain("config `"@ + path + "` must contain an integer `version`"@)),
        Some(version) => match schema_of(version) {
            Some(schema) => Ok(schema),
            None => Err(
                plain(
                    "unsupported config version "@ + signed_numeral(version) + " in `"@ + path
                        + "`; supported versions are 0, 1, and "@ + numeral(
                        Config::CURRENT_VERSION as nat,
                    ),
                ),
            ),
        },
    }
}

/// The outcome of a decision is exactly what was decided.
pub open spec fn decides(
    r: Result<ConfigSchema, ConfigError>,
    decision: Result<ConfigSchema, FailureView>,
) -> bool {
    match decision {
        Ok(schema) => r == Ok::<ConfigSchema, ConfigError>(schema),
        Err(failure) => r is Err && r->Err_0@ == failure,
    }
}

/// A configuration file.
#[derive(Debug, PartialEq, Eq)]
pub struct ConfigStore {
    path: String,
}

impl View for ConfigStore {
    type V = Seq<char>;

    closed spec fn view(&self) -> Seq<char> {
        self.path@
    }
}

impl ConfigStore {
    pub const MAX_PERSISTED_BYTES: usize = 8_388_608;

    pub const MAX_INPUT_BYTES: usize = 8_388_608;

    /// The configuration file at `path`.
    pub fn new(path: String) -> (store: Self)
        ensures
            store@ == path@,
    {
        ConfigStore { path }
    }

    /// The path of the file.
    pub fn path(&self) -> (path: &str)
        ensures
            path@ == self@,
    {
        self.path.as_str()
    }

    /// Checks the size of a file before it is read.
    pub fn accept_size(&self, size: u64) -> (r: Result<(), ConfigError>)
        ensures
            reports(
                r,
                if size > Self::MAX_INPUT_BYTES {
                    Some(too_large_text())
                } else {
                    None
                },
            ),
    {
        if size > Self::MAX_INPUT_BYTES as u64 {
            return Err(self.too_large());
        }
        Ok(())
    }

    /// The error for a file that is too large.
    fn too_large(&self) -> (error: ConfigError)
        ensures
            error@ == plain(too_large_text()),
    {
        ConfigError::new(
            "config input may contain at most ".to_owned().concat(
                decimal(Self::MAX_INPUT_BYTES as u64).as_str(),
            ).concat(" bytes"),
        )
    }

    /// The schema that a file with these contents is written in.
    pub fn schema(&self, source: &str) -> (r: Result<ConfigSchema, ConfigError>)
        ensures
            decides(r, schema_decision(self@, source@)),
    {
        if byte_length(source) > Self::MAX_INPUT_BYTES {
            return Err(self.too_large());
        }
        match parse_toml(source) {
            Err(reason) => Err(
                ConfigError::explained(
                    Failure::new(reason).context(
                        "parse config `".to_owned().concat(self.path.as_str()).concat("` as TOML"),
                    ),
                ),
            ),
            Ok(leaves) => self.schema_of_document(&leaves),
        }
    }

    /// The schema that a document gives.
    pub fn schema_of_document(&self, leaves: &Vec<TomlLeaf>) -> (r: Result<
        ConfigSchema,
        ConfigError,
    >)
        ensures
            decides(r, schema_in(self@, leaf_views(leaves@))),
    {
        match find_version(leaves) {
            None => Err(
                ConfigError::new(
                    "config `".to_owned().concat(self.path.as_str()).concat(
                        "` must contain an integer `version`",
                    ),
                ),
            ),
            Some(version) => {
                if version == 0 {
                    Ok(ConfigSchema::V0)
                } else if version == 1 {
                    Ok(ConfigSchema::V1)
                } else if version == 2 {
                    Ok(ConfigSchema::V2)
                } else if version == 3 {
                    Ok(ConfigSchema::Current)
                } else {
                    Err(
                        ConfigError::new(
                            "unsupported config version ".to_owned().concat(
                                version_text(version).as_str(),
                            ).concat(" in `").concat(self.path.as_str()).concat(
                                "`; supported versions are 0, 1, and ",
                            ).concat(decimal(Config::CURRENT_VERSION as u64).as_str()),
                        ),
                    )
                }
            },
        }
    }

    /// Decodes the contents of the file, if there is one, in the schema that they
    /// are written in.
    pub fn read<D: FnOnce(ConfigSchema, &str) -> Result<DecodedConfig, Failure>>(
        &self,
        source: Option<&str>,
        decode: D,
    ) -> (r: Result<DecodedConfig, ConfigError>)
        requires
            forall|schema: ConfigSchema, text: &str| #[trigger] decode.requires((schema, text)),
        ensures
            match source {
                None => r is Ok && r->Ok_0 is Missing,
                Some(text) => reads(r, self@, text, decode),
            },
    {
        let text = match source {
            None => return Ok(DecodedConfig::Missing),
            Some(text) => text,
        };
        let schema = self.schema(text)?;
        let decoded = decode(schema, text);
        let ghost given = decoded;
        let r = match decoded {
            Ok(decoded) => Ok(decoded),
            Err(failure) => {
                let version: u64 = match schema {
                    ConfigSchema::V0 => 0,
                    ConfigSchema::V1 => 1,
                    ConfigSchema::V2 => 2,
                    ConfigSchema::Current => 3,
                };
                Err(
                    ConfigError::explained(
                        failure.context(
                            "decode config version ".to_owned().concat(
                                decimal(version).as_str(),
                            ).concat(" from `").concat(self.path.as_str()).concat("`"),
                        ),
                    ),
                )
            },
        };
        assert(decode.ensures((schema, text), given) && accepts(r, self@, schema, given));
        r
    }

    /// Brings a decoded file up to date and checks it. A file in an older
    /// schema is to be written anew.
    pub fn load(&self, decoded: DecodedConfig) -> (r: Result<LoadedConfig, ConfigError>)
        ensures
            loads(r, decoded, true),
    {
        self.load_unlocked_with_migration(decoded, true)
    }

    /// Loads and validates config while migrating legacy schemas only in memory.
    pub fn load_read_only(&self, decoded: DecodedConfig) -> (r: Result<LoadedConfig, ConfigError>)
        ensures
            loads(r, decoded, false),
    {
        self.load_unlocked_with_migration(decoded, false)
    }

    /// Brings a decoded file up to date and checks it.
    fn load_unlocked_with_migration(
        &self,
        decoded: DecodedConfig,
        persist_migration: bool,
    ) -> (r: Result<LoadedConfig, ConfigError>)
        ensures
            loads(r, decoded, persist_migration),
    {
        let (config, migrated) = match decoded {
            DecodedConfig::Missing => {
                return Ok(LoadedConfig { config: Config::default(), rewrite: false });
            },
            DecodedConfig::Current(config) => (config, false),
            DecodedConfig::V2(config) => (config.migrate(), true),
            DecodedConfig::V1(config) => (config.migrate(), true),
            DecodedConfig::V0(config) => (config.migrate().migrate(), true),
        };
        match config.validate() {
            Ok(()) => Ok(LoadedConfig { config, rewrite: migrated && persist_migration }),
            Err(error) => Err(error),
        }
    }

    /// Has a change take effect on a decoded file, and gives the text that is to
    /// be written with what the change gave. Nothing is written where the file
    /// is not in order, where the change fails, or where what it leaves cannot
    /// be saved.
    pub fn update<
        T,
        F: FnOnce(Config) -> Result<(Config, T), ConfigError>,
        E: FnOnce(&Config) -> Result<String, ConfigError>,
    >(&self, decoded: DecodedConfig, change: F, encode: E) -> (r: Result<(String, T), ConfigError>)
        requires
            forall|config: Config|
                config@ == decoded.current() ==> #[trigger] change.requires((config,)),
            forall|config: &Config|
                config_problem(config@) is None ==> #[trigger] encode.requires((config,)),
        ensures
            match config_problem(decoded.current()) {
                Some(text) => r is Err && r->Err_0@ == plain(text),
                None => exists|config: Config, changed: Result<(Config, T), ConfigError>|
                    config@ == decoded.current() && #[trigger] change.ensures((config,), changed)
                        && updates(r, changed, encode),
            },
    {
        let loaded = self.load(decoded)?;
        let ghost config = loaded.config;
        let changed = change(loaded.config);
        let ghost given = changed;
        let (config_after, value) = match changed {
            Ok(pair) => pair,
            Err(error) => {
                assert(change.ensures((config,), given) && updates(
                    Err::<(String, T), ConfigError>(error),
                    given,
                    encode,
                ));
                return Err(error);
            },
        };
        let saved = self.save(&config_after, encode);
        let ghost kept = saved;
        let r = match saved {
            Ok(text) => Ok((text, value)),
            Err(error) => Err(error),
        };
        assert(saves(kept, &config_after, encode) && keeps(r, kept, value));
        assert(change.ensures((config,), given) && updates(r, given, encode));
        r
    }

    /// The text that a configuration is written as. One that is not in order
    /// is not written, nor is one whose text is too large.
    pub fn save<E: FnOnce(&Config) -> Result<String, ConfigError>>(
        &self,
        config: &Config,
        encode: E,
    ) -> (r: Result<String, ConfigError>)
        requires
            config_problem(config@) is None ==> encode.requires((config,)),
        ensures
            saves(r, config, encode),
    {
        config.validate()?;
        let encoded = encode(config);
        let ghost given = encoded;
        let r = match encoded {
            Ok(text) => match self.require_serialized_config_size(text.as_str()) {
                Ok(()) => Ok(text),
                Err(error) => Err(error),
            },
            Err(error) => Err(error),
        };
        assert(encode.ensures((config,), given) && writes(r, given));
        r
    }

    /// Checks the text of a configuration before it is written.
    pub fn require_serialized_config_size(&self, serialized: &str) -> (r: Result<(), ConfigError>)
        ensures
            reports(
                r,
                if byte_len(serialized@) > Self::MAX_PERSISTED_BYTES {
                    Some(oversized_text())
                } else {
                    None
                },
            ),
    {
        if byte_length(serialized) > Self::MAX_PERSISTED_BYTES {
            return Err(
                ConfigError::new(
                    "serialized config may contain at most ".to_owned().concat(
                        decimal(Self::MAX_PERSISTED_BYTES as u64).as_str(),
                    ).concat(" bytes"),
                ),
            );
        }
        Ok(())
    }
}

/// What is said of a file that cannot be decoded in its schema.
pub open spec fn undecoded_text(path: Seq<char>, schema: ConfigSchema) -> Seq<char> {
    let version: nat = match schema {
        ConfigSchema::V0 => 0,
        ConfigSchema::V1 => 1,
        ConfigSchema::V2 => 2,
        ConfigSchema::Current => 3,
    };
    "decode config version "@ + numeral(version) + " from `"@ + path + "`"@
}

/// What comes of a file that was decoded in its schema.
pub open spec fn accepts(
    r: Result<DecodedConfig, ConfigError>,
    path: Seq<char>,
    schema: ConfigSchema,
    decoded: Result<DecodedConfig, Failure>,
) -> bool {
    match decoded {
        Ok(decoded) => r == Ok::<DecodedConfig, ConfigError>(decoded),
        Err(failure) => r is Err && r->Err_0@ == led_to(undecoded_text(path, schema), failure@),
    }
}

/// Reading gives what the text is decoded to in its schema, or says what is
/// wrong with it.
pub open spec fn reads<D: FnOnce(ConfigSchema, &str) -> Result<DecodedConfig, Failure>>(
    r: Result<DecodedConfig, ConfigError>,
    path: Seq<char>,
    text: &str,
    decode: D,
) -> bool {
    match schema_decision(path, text@) {
        Err(failure) => r is Err && r->Err_0@ == failure,
        Ok(schema) => exists|decoded: Result<DecodedConfig, Failure>| #[trigger]
            decode.ensures((schema, text), decoded) && accepts(r, path, schema, decoded),
    }
}

/// What is written of the text that a configuration was encoded as.
pub open spec fn writes(
    r: Result<String, ConfigError>,
    encoded: Result<String, ConfigError>,
) -> bool {
    match encoded {
        Err(error) => r == Err::<String, ConfigError>(error),
        Ok(text) => if byte_len(text@) > ConfigStore::MAX_PERSISTED_BYTES {
            r is Err && r->Err_0@ == plain(oversized_text())
        } else {
            r == Ok::<String, ConfigError>(text)
        },
    }
}

/// Saving gives the text that the configuration is encoded as, or says what is
/// wrong with the configuration or with its text.
pub open spec fn saves<E: FnOnce(&Config) -> Result<String, ConfigError>>(
    r: Result<String, ConfigError>,
    config: &Config,
    encode: E,
) -> bool {
    match config_problem(config@) {
        Some(text) => r is Err && r->Err_0@ == plain(text),
        None => exists|encoded: Result<String, ConfigError>| #[trigger]
            encode.ensures((config,), encoded) && writes(r, encoded),
    }
}

/// A value goes with the text that was saved.
pub open spec fn keeps<T>(
    r: Result<(String, T), ConfigError>,
    saved: Result<String, ConfigError>,
    value: T,
) -> bool {
    match saved {
        Ok(text) => r == Ok::<(String, T), ConfigError>((text, value)),
        Err(error) => r == Err::<(String, T), ConfigError>(error),
    }
}

/// Loading gives the configuration in the current schema, or the first thing
/// that is wrong with it. A missing file is not checked and not written.
pub open spec fn loads(
    r: Result<LoadedConfig, ConfigError>,
    decoded: DecodedConfig,
    persist_migration: bool,
) -> bool {
    match config_problem(decoded.current()) {
        Some(text) => r is Err && r->Err_0@ == plain(text),
        None => r is Ok && r->Ok_0.config@ == decoded.current() && r->Ok_0.rewrite == (
        decoded.outdated() && persist_migration),
    }
}

/// An update gives what the change gave with the text of the configuration that
/// it left, unless that configuration cannot be saved.
pub open spec fn updates<T, E: FnOnce(&Config) -> Result<String, ConfigError>>(
    r: Result<(String, T), ConfigError>,
    changed: Result<(Config, T), ConfigError>,
    encode: E,
) -> bool {
    match changed {
        Err(error) => r == Err::<(String, T), ConfigError>(error),
        Ok((config, value)) => exists|saved: Result<String, ConfigError>| #[trigger]
            saves(saved, &config, encode) && keeps(r, saved, value),
    }
}

/// Decoding gives back a configuration that was encoded: a text that may be
/// read is in the current schema, and decoded to that configuration.
pub open spec fn gives_back<
    E: FnOnce(&Config) -> Result<String, ConfigError>,
    D: FnOnce(ConfigSchema, &str) -> Result<DecodedConfig, Failure>,
>(path: Seq<char>, config: &Config, encode: E, decode: D) -> bool {
    forall|encoded: Result<String, ConfigError>|
        #[trigger] encode.ensures((config,), encoded) && encoded is Ok && byte_len(
            encoded->Ok_0@,
        ) <= ConfigStore::MAX_INPUT_BYTES ==> {
            &&& schema_decision(path, encoded->Ok_0@) == Ok::<ConfigSchema, FailureView>(
                ConfigSchema::Current,
            )
            &&& forall|text: &str, decoded: Result<DecodedConfig, Failure>|
                text@ == encoded->Ok_0@ && #[trigger] decode.ensures(
                    (ConfigSchema::Current, text),
                    decoded,
                ) ==> decoded is Ok && decoded->Ok_0 is Current && decoded->Ok_0.current()
                    == config@
        }
}

/// A configuration that was saved is loaded again as it was, and its file is not
/// written anew, wherever decoding gives back what was encoded.
pub proof fn a_saved_configuration_is_loaded_again<
    E: FnOnce(&Config) -> Result<String, ConfigError>,
    D: FnOnce(ConfigSchema, &str) -> Result<DecodedConfig, Failure>,
>(
    path: Seq<char>,
    config: &Config,
    encode: E,
    decode: D,
    saved: Result<String, ConfigError>,
    text: &str,
    read: Result<DecodedConfig, ConfigError>,
    loaded: Result<LoadedConfig, ConfigError>,
    persist_migration: bool,
)
    requires
        saves(saved, config, encode),
        saved is Ok,
        text@ == saved->Ok_0@,
        gives_back(path, config, encode, decode),
        reads(read, path, text, decode),
        read is Ok ==> loads(loaded, read->Ok_0, persist_migration),
    ensures
        read is Ok,
        loaded is Ok,
        loaded->Ok_0.config@ == config@,
        !loaded->Ok_0.rewrite,
{
}

/// What an update leaves is what is loaded afterwards, wherever decoding gives
/// back what was encoded.
pub proof fn an_updated_configuration_is_loaded_again<
    T,
    E: FnOnce(&Config) -> Result<String, ConfigError>,
    D: FnOnce(ConfigSchema, &str) -> Result<DecodedConfig, Failure>,
>(
    path: Seq<char>,
    changed: Result<(Config, T), ConfigError>,
    encode: E,
    decode: D,
    updated: Result<(String, T), ConfigError>,
    text: &str,
    read: Result<DecodedConfig, ConfigError>,
    loaded: Result<LoadedConfig, ConfigError>,
    persist_migration: bool,
)
    requires
        updates(updated, changed, encode),
        updated is Ok,
        text@ == updated->Ok_0.0@,
        gives_back(path, &changed->Ok_0.0, encode, decode),
        reads(read, path, text, decode),
        read is Ok ==> loads(loaded, read->Ok_0, persist_migration),
    ensures
        changed is Ok,
        updated->Ok_0.1 == changed->Ok_0.1,
        read is Ok,
        loaded is Ok,
        loaded->Ok_0.config@ == changed->Ok_0.0@,
        !loaded->Ok_0.rewrite,
{
    let config = changed->Ok_0.0;
    let saved = choose|saved: Result<String, ConfigError>| #[trigger]
        saves(saved, &config, encode) && keeps(updated, saved, changed->Ok_0.1);
    a_saved_configuration_is_loaded_again(
        path,
        &config,
        encode,
        decode,
        saved,
        text,
        read,
        loaded,
        persist_migration,
    );
}

/// A configuration that is not in order, or whose text is too large, is refused
/// by saving and by updating alike, and leaves no text to be written.
pub proof fn a_refused_configuration_is_not_written<
    T,
    E: FnOnce(&Config) -> Result<String, ConfigError>,
>(
    config: Config,
    value: T,
    encode: E,
    saved: Result<String, ConfigError>,
    updated: Result<(String, T), ConfigError>,
)
    requires
        saves(saved, &config, encode),
        updates(updated, Ok((config, value)), encode),
        config_problem(config@) is Some || forall|encoded: Result<String, ConfigError>| #[trigger]
            encode.ensures((&config,), encoded) ==> encoded is Ok && byte_len(encoded->Ok_0@)
                > ConfigStore::MAX_PERSISTED_BYTES,
    ensures
        saved is Err,
        updated is Err,
        saved->Err_0@ == updated->Err_0@,
        saved->Err_0@ == plain(
            match config_problem(config@) {
                Some(text) => text,
                None => oversized_text(),
            },
        ),
{
}

/// Every older schema keeps its hosts, and gets the defaults of what it did
/// not hold.
pub proof fn migration_keeps_what_was_there(v0: ConfigV0, v1: ConfigV1, v2: ConfigV2)
    ensures
        DecodedConfig::V0(v0).current().hosts == early_host_views(v0.hosts@),
        DecodedConfig::V1(v1).current().hosts == host_views(v1.hosts@),
        DecodedConfig::V1(v1).current().ui == v1.ui,
        DecodedConfig::V2(v2).current() == (ConfigView {
            version: Config::CURRENT_VERSION as int,
            notifications: default_notifications(),
            ..DecodedConfig::V2(v2).current()
        }),
        DecodedConfig::V2(v2).current().hosts == host_views(v2.hosts@),
        DecodedConfig::V2(v2).current().discovery == v2.discovery@,
        DecodedConfig::V2(v2).current().retention == v2.retention,
{
}

} // verus!
