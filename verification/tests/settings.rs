//! The configuration, Herdr's key binding and the paths of both.

use std::path::Path;

use herdr_tether::backend::{
    executable_candidates, join_path, resolve_executable, CommandSpec, ProcessBinaries,
};
use herdr_tether::config::{
    escaped_config_text, is_reserved_name, CommandPreset, Config, ConfigError, HostConfig,
};
use herdr_tether::config_store::{
    ConfigSchema, ConfigStore, ConfigV0, ConfigV1, DecodedConfig, HostConfigV0,
};
use herdr_tether::document::Step;
use herdr_tether::failure::Failure;
use herdr_tether::keybinding::{
    append_keybinding, HerdrKeybindingStore, InstallStep, KeybindingError, TETHER_KEYBINDING,
};
use herdr_tether::path_text::file_name_of;
use herdr_tether::paths::{AppPaths, Environment, PathsError};
use herdr_tether::quote::posix_quote;
use herdr_tether::ssh_target::{literal_aliases, parse_target};
use herdr_tether::toml_text::{parse_toml, TomlScalar};

fn host(name: &str) -> HostConfig {
    HostConfig {
        name: name.to_owned(),
        target: "user@example.test".to_owned(),
        roots: Vec::new(),
        presets: Vec::new(),
    }
}

fn preset(name: &str, command: &str) -> CommandPreset {
    CommandPreset {
        name: name.to_owned(),
        command: command.to_owned(),
        herdr_agent: None,
        health_command: None,
    }
}

#[test]
fn the_default_configuration_is_valid() {
    assert!(Config::default().validate().is_ok());
}

#[test]
fn hosts_are_added_once_and_under_names_of_their_own() {
    let mut config = Config::default();
    config.add_host(host("build")).unwrap();
    assert!(config.add_host(host("build")).unwrap_err().message().contains("build"));
    assert!(config.add_host(host("local")).is_err());
    assert!(config.add_host(host("Local")).is_err() == is_reserved_name("Local"));
    assert!(config.add_host(host(" ")).is_err());
    assert_eq!(config.hosts.len(), 1, "a refused host is not added");
    assert!(config.validate().is_ok());
    let mut elsewhere = host("elsewhere");
    elsewhere.target = "-oProxyCommand=x".to_owned();
    assert_eq!(
        config.add_host(elsewhere).unwrap_err().message(),
        "invalid target for host `elsewhere`"
    );
    config.append_alias_hosts(&vec!["edge".to_owned(), "build".to_owned()]);
    assert_eq!(config.hosts.len(), 2, "an alias never takes the name of a host");
    assert!(config.remove_host("build"));
    assert!(!config.remove_host("build"));
}

#[test]
fn every_part_of_a_configuration_is_checked() {
    let refused = |change: &dyn Fn(&mut Config)| {
        let mut config = Config::default();
        config.hosts.push(host("build"));
        change(&mut config);
        config.validate().is_err()
    };
    assert!(!refused(&|_| {}));
    assert!(refused(&|config| config.version = 99));
    assert!(refused(&|config| config.discovery.max_depth = usize::MAX));
    assert!(refused(&|config| config.discovery.max_entries = 0));
    assert!(refused(&|config| config.discovery.max_results = 0));
    assert!(refused(&|config| config.discovery.timeout_seconds = 0));
    assert!(refused(&|config| config.discovery.workers = 0));
    assert!(refused(&|config| config.hosts[0].target = " ".to_owned()));
    assert!(refused(&|config| config.hosts[0].presets.push(preset("", "x"))));
    assert!(refused(&|config| config.hosts[0].presets.push(preset("x", " "))));
    assert!(refused(&|config| {
        config.hosts[0].presets.push(preset("x", "a"));
        config.hosts[0].presets.push(preset("x", "b"));
    }));
}

#[test]
fn texts_of_a_configuration_are_shown_on_one_line() {
    assert_eq!(escaped_config_text("plain name"), "plain name");
    assert!(!escaped_config_text("a\nb\u{7}").contains(['\n', '\u{7}']));
    assert_eq!(escaped_config_text("a\u{61c}b"), "a\\u{061c}b");
    assert_eq!(escaped_config_text("a\u{2060}b"), "a\\u{2060}b");
    assert_eq!(escaped_config_text("a\u{feff}b"), "a\\u{feff}b");
    assert_eq!(escaped_config_text("a\u{202e}b\tc"), "a\\u{202e}b\\tc");
    assert_eq!(escaped_config_text("a\u{2061}b\u{206a}c"), "a\\u{2061}b\\u{206a}c");
}

#[test]
fn the_schema_of_a_file_is_told_by_its_version() {
    let store = ConfigStore::new("/config.toml".to_owned());
    assert_eq!(store.schema("version = 0\nhosts = []\n").unwrap(), ConfigSchema::V0);
    assert_eq!(store.schema("version = 1").unwrap(), ConfigSchema::V1);
    assert_eq!(
        store.schema(&format!("version = {}", Config::CURRENT_VERSION)).unwrap(),
        ConfigSchema::Current
    );
    assert_eq!(
        store.schema("version = \"1\"").unwrap_err().message(),
        "config `/config.toml` must contain an integer `version`"
    );
    let unread = store.schema("version = ").unwrap_err();
    assert_eq!(unread.message(), "parse config `/config.toml` as TOML");
    let reason = toml::from_str::<toml::Value>("version = ").unwrap_err().to_string();
    assert_eq!(
        unread.failure().chain(),
        ["parse config `/config.toml` as TOML".to_owned(), reason]
    );
    assert!(store.schema("version = 99").is_err());
    assert!(store.accept_size(ConfigStore::MAX_INPUT_BYTES as u64).is_ok());
    assert!(store.accept_size(ConfigStore::MAX_INPUT_BYTES as u64 + 1).is_err());
    assert!(store.require_serialized_config_size("version = 1").is_ok());
}

#[test]
fn earlier_schemas_keep_what_was_there() {
    let store = ConfigStore::new("/config.toml".to_owned());
    let early = || ConfigV0 {
        version: 0,
        hosts: vec![HostConfigV0 {
            name: "build".to_owned(),
            target: "user@example.test".to_owned(),
            roots: vec!["/srv".to_owned()],
        }],
    };
    let loaded = store.load(DecodedConfig::V0(early())).unwrap();
    assert!(loaded.rewrite);
    assert_eq!(loaded.config.hosts[0].roots, ["/srv"]);
    let looked_at = store.load_read_only(DecodedConfig::V0(early())).unwrap();
    assert!(!looked_at.rewrite);
    assert_eq!(looked_at.config, loaded.config);
    let v1 = ConfigV1 {
        version: 1,
        hosts: vec![host("build")],
        ui: Config::default().ui,
    };
    assert!(store.load(DecodedConfig::V1(v1)).unwrap().rewrite);
    let missing = store.load(DecodedConfig::Missing).unwrap();
    assert_eq!(missing.config, Config::default());
    assert!(!missing.rewrite);
    let mut wrong = Config::default();
    wrong.discovery.workers = 0;
    assert_eq!(
        store.save(&wrong, encoded).unwrap_err().message(),
        "discovery workers must be greater than zero"
    );
    assert!(store.load(DecodedConfig::Current(wrong)).is_err());
}

/// A text that tells the hosts of a configuration.
fn encoded(config: &Config) -> Result<String, ConfigError> {
    let mut text = format!("version = {}\n", config.version);
    for host in &config.hosts {
        text.push_str(&format!("[[hosts]]\nname = \"{}\"\n", host.name));
    }
    Ok(text)
}

/// The configuration that such a text tells of.
fn decoded(schema: ConfigSchema, text: &str) -> Result<DecodedConfig, Failure> {
    if schema != ConfigSchema::Current {
        return Err(Failure::new("an older schema".to_owned()));
    }
    let mut config = Config::default();
    for leaf in parse_toml(text).unwrap() {
        if let TomlScalar::Text(name) = leaf.value {
            config.add_host(host(&name)).unwrap();
        }
    }
    Ok(DecodedConfig::Current(config))
}

#[test]
fn contents_are_decoded_in_the_schema_they_are_written_in() {
    let store = ConfigStore::new("/config.toml".to_owned());
    assert_eq!(store.read(None, decoded).unwrap(), DecodedConfig::Missing);
    assert_eq!(
        store.read(Some("version = 3\n"), decoded).unwrap(),
        DecodedConfig::Current(Config::default())
    );
    for version in 0..3 {
        let text = format!("version = {version}\n");
        let unread = store.read(Some(text.as_str()), decoded).unwrap_err();
        assert_eq!(
            unread.failure().chain(),
            [
                format!("decode config version {version} from `/config.toml`"),
                "an older schema".to_owned(),
            ]
        );
    }
    assert_eq!(
        store.read(Some("version = 9\n"), decoded).unwrap_err().message(),
        "unsupported config version 9 in `/config.toml`; supported versions are 0, 1, and 3"
    );
}

#[test]
fn a_saved_configuration_is_loaded_as_it_was() {
    let store = ConfigStore::new("/config.toml".to_owned());
    let mut config = Config::default();
    config.add_host(host("build")).unwrap();
    let text = store.save(&config, encoded).unwrap();
    assert_eq!(text, "version = 3\n[[hosts]]\nname = \"build\"\n");
    let loaded = store.load(store.read(Some(text.as_str()), decoded).unwrap()).unwrap();
    assert_eq!(loaded.config, config);
    assert!(!loaded.rewrite);
    let (updated, _) = store
        .update(
            store.read(Some(text.as_str()), decoded).unwrap(),
            |mut config| {
                config.add_host(host("test"))?;
                Ok((config, ()))
            },
            encoded,
        )
        .unwrap();
    let names: Vec<String> = store
        .load_read_only(store.read(Some(updated.as_str()), decoded).unwrap())
        .unwrap()
        .config
        .hosts
        .into_iter()
        .map(|host| host.name)
        .collect();
    assert_eq!(names, ["build", "test"]);
}

#[test]
fn a_configuration_too_large_to_be_written_is_refused() {
    let store = ConfigStore::new("/config.toml".to_owned());
    let config = Config::default();
    let of_size = |size: usize| move |_: &Config| Ok::<_, ConfigError>("#".repeat(size));
    let most = ConfigStore::MAX_PERSISTED_BYTES;
    assert_eq!(store.save(&config, of_size(most)).unwrap().len(), most);
    assert_eq!(
        store.save(&config, of_size(most + 1)).unwrap_err().message(),
        "serialized config may contain at most 8388608 bytes"
    );
    let updated = store.update(
        DecodedConfig::Missing,
        |config| Ok((config, ())),
        of_size(most + 1),
    );
    assert_eq!(
        updated.unwrap_err().message(),
        "serialized config may contain at most 8388608 bytes"
    );
    let unencoded = store.save(&config, |_: &Config| Err(ConfigError::new("no text".to_owned())));
    assert_eq!(unencoded.unwrap_err().message(), "no text");
}

#[test]
fn an_update_leaves_a_configuration_that_is_in_order() {
    let store = ConfigStore::new("/config.toml".to_owned());
    let current = || DecodedConfig::Current(Config::default());
    let (text, count) = store
        .update(
            current(),
            |mut config| {
                config.add_host(host("build"))?;
                let count = config.hosts.len();
                Ok((config, count))
            },
            encoded,
        )
        .unwrap();
    assert_eq!(text, "version = 3\n[[hosts]]\nname = \"build\"\n");
    assert_eq!(count, 1);
    let failed = store.update(
        current(),
        |config| {
            let _ = config;
            Err::<(Config, ()), ConfigError>(ConfigError::new("no".to_owned()))
        },
        encoded,
    );
    assert_eq!(failed.unwrap_err().message(), "no");
    let broken = store.update(
        current(),
        |mut config| {
            config.discovery.workers = 0;
            Ok((config, ()))
        },
        encoded,
    );
    assert_eq!(
        broken.unwrap_err().message(),
        "discovery workers must be greater than zero"
    );
    let mut wrong = Config::default();
    wrong.retention.closed_days = 0;
    let unread =
        store.update(DecodedConfig::Current(wrong), |config| Ok((config, ())), encoded);
    assert_eq!(
        unread.unwrap_err().message(),
        "retention closed_days must be greater than zero"
    );
}

#[test]
fn a_second_installation_finds_what_the_first_one_added() {
    let sources = [
        "",
        "theme = \"dark\"\n",
        "[keys]\nprefix = \"ctrl+b\"\n",
        "[[keys.command]]\nkey = \"prefix+x\"\ntype = \"shell\"\ncommand = \"top\"\n",
        " \t\r\n",
        "# no line end",
        "name = \"\u{e9}\"",
    ];
    for source in sources {
        let candidate = match binding().install(source.as_bytes().to_vec()).unwrap() {
            InstallStep::Add(candidate) => candidate,
            other => panic!("{other:?}"),
        };
        let plan = candidate.install_unlocked(None).unwrap();
        assert_eq!(
            binding().install(plan.updated).unwrap(),
            InstallStep::AlreadyInstalled,
            "{source:?}"
        );
    }
    let candidate = match binding().install(b"[[keys]]\nx = 1\n".to_vec()).unwrap() {
        InstallStep::Add(candidate) => candidate,
        other => panic!("{other:?}"),
    };
    let plan = candidate.install_unlocked(None).unwrap();
    assert!(matches!(binding().install(plan.updated).unwrap(), InstallStep::Add(_)));
}

#[test]
fn documents_are_read_as_their_scalars() {
    let leaves = parse_toml("a = 1\n[[t]]\nb = \"x\"\nc = true\n").unwrap();
    let find = |path: &[Step]| {
        leaves.iter().find(|leaf| leaf.path == path).map(|leaf| &leaf.value)
    };
    assert_eq!(find(&[Step::Key("a".to_owned())]), Some(&TomlScalar::Integer(1)));
    let below = |name: &str| {
        [Step::Key("t".to_owned()), Step::Item(0), Step::Key(name.to_owned())]
    };
    assert_eq!(find(&below("b")), Some(&TomlScalar::Text("x".to_owned())));
    assert_eq!(find(&below("c")), Some(&TomlScalar::Other));
    assert_eq!(leaves.len(), 3);
    assert_eq!(
        parse_toml("a = ").unwrap_err(),
        toml::from_str::<toml::Value>("a = ").unwrap_err().to_string()
    );
}

fn binding() -> HerdrKeybindingStore {
    HerdrKeybindingStore::new("/home/me/.config/herdr/config.toml".to_owned())
}

#[test]
fn a_binding_is_added_behind_what_is_there_and_taken_back() {
    let source = b"theme = \"dark\"".to_vec();
    let candidate = match binding().install(source.clone()).unwrap() {
        InstallStep::Add(candidate) => candidate,
        other => panic!("{other:?}"),
    };
    let plan = candidate.install_unlocked(None).unwrap();
    assert_eq!(plan.backup, source);
    assert!(!plan.remove_backup);
    assert!(plan.updated.starts_with(&source));
    assert!(plan.updated.ends_with(TETHER_KEYBINDING.as_bytes()));
    assert_eq!(plan.updated, append_keybinding(&source));
    assert_eq!(
        binding().install(plan.updated.clone()).unwrap(),
        InstallStep::AlreadyInstalled
    );
    assert_eq!(binding().rollback(plan.backup.clone(), &plan.updated).unwrap(), source);
    let mut edited = plan.updated.clone();
    edited.push(b'#');
    assert_eq!(binding().rollback(plan.backup, &edited), Err(KeybindingError::Edited));
}

#[test]
fn a_binding_of_something_else_is_left_alone() {
    let refused = |text: &str| binding().install(text.as_bytes().to_vec()).unwrap_err();
    assert_eq!(
        refused("[[keys.command]]\nkey = \"prefix+t\"\ntype = \"shell\"\ncommand = \"top\"\n"),
        KeybindingError::CommandBound
    );
    assert_eq!(refused("[keys]\nnew_tab = \"prefix+t\"\n"), KeybindingError::ActionBound);
    let unread = toml::from_str::<toml::Value>("[keys").unwrap_err().to_string();
    assert_eq!(refused("[keys"), KeybindingError::NotToml(unread));
    let undecoded = std::str::from_utf8(&[0xff]).unwrap_err().to_string();
    assert_eq!(
        binding().install(vec![0xff]).unwrap_err(),
        KeybindingError::NotUtf8(undecoded.clone())
    );
    let candidate = match binding().install(Vec::new()).unwrap() {
        InstallStep::Add(candidate) => candidate,
        other => panic!("{other:?}"),
    };
    assert_eq!(
        candidate.install_unlocked(Some(b"other".to_vec())).unwrap_err(),
        KeybindingError::BackupExists
    );
    let path = binding().path().to_owned();
    let backup = HerdrKeybindingStore::backup_path_for(&path);
    assert!(KeybindingError::BackupExists.message(&path, &backup).contains(&backup));
    let failure = KeybindingError::NotUtf8(undecoded.clone()).failure(&path, &backup);
    assert!(failure.message().contains("is not UTF-8"));
    assert_eq!(failure.chain()[1..], [undecoded]);
    let candidate = match binding().install(b"keys = {}\n".to_vec()).unwrap() {
        InstallStep::Add(candidate) => candidate,
        other => panic!("{other:?}"),
    };
    let merged = String::from_utf8(append_keybinding(&b"keys = {}\n".to_vec())).unwrap();
    assert_eq!(
        candidate.install_unlocked(None).unwrap_err(),
        KeybindingError::CannotMerge(
            toml::from_str::<toml::Value>(&merged).unwrap_err().to_string()
        )
    );
}

#[test]
fn herdr_keeps_its_configuration_where_the_environment_says() {
    let some = |text: &str| Some(text.to_owned());
    let path = HerdrKeybindingStore::path_from_env;
    assert_eq!(path(some("/x.toml"), some("/c"), some("/h")).unwrap(), "/x.toml");
    assert_eq!(path(None, some("/c"), some("/h")).unwrap(), "/c/herdr/config.toml");
    assert_eq!(path(None, None, some("/h")).unwrap(), "/h/.config/herdr/config.toml");
    assert_eq!(path(None, None, None), Err(KeybindingError::NoConfigPath));
}

#[test]
fn backups_stand_beside_the_file() {
    for path in ["/a/config.toml", "config.toml", "/config.toml", "/a/b/"] {
        let name = Path::new(path).file_name().unwrap().to_str().unwrap();
        let expected = Path::new(path).with_file_name(format!("{name}.tether-keybinding.bak"));
        assert_eq!(
            Path::new(&HerdrKeybindingStore::backup_path_for(path)),
            expected,
            "{path}"
        );
    }
}

#[test]
fn paths_are_taken_apart_as_the_standard_library_does() {
    let pieces = ["", "/", "a", "..", ".", "b.c"];
    for first in pieces {
        for second in pieces {
            for third in pieces {
                let path = format!("{first}{second}/{third}");
                let expected = Path::new(&path).file_name().and_then(|name| name.to_str());
                assert_eq!(file_name_of(&path).as_deref(), expected, "{path:?}");
                if !second.starts_with('/') {
                    let joined = Path::new(first).join(second);
                    assert_eq!(join_path(first, second), joined.to_str().unwrap());
                }
            }
        }
    }
}

#[test]
fn files_stand_where_the_environment_says() {
    let environment = |home: Option<&str>, plugin: Option<&str>, xdg: Option<&str>| Environment {
        home: home.map(str::to_owned),
        plugin_config_dir: plugin.map(str::to_owned),
        plugin_state_dir: plugin.map(str::to_owned),
        xdg_config_home: xdg.map(str::to_owned),
        xdg_state_home: xdg.map(str::to_owned),
    };
    let paths = AppPaths::from_env(&environment(Some("/home/me"), None, None)).unwrap();
    assert_eq!(paths.config_file, "/home/me/.config/herdr-tether/config.toml");
    let plugin = AppPaths::from_env(&environment(Some("/h"), Some("/p"), Some("/x"))).unwrap();
    assert!(plugin.config_file.starts_with("/p/"));
    assert_eq!(
        AppPaths::from_env(&environment(None, None, None)),
        Err(PathsError::NoConfigDir)
    );
    assert!(PathsError::NoStateDir.message().contains("HERDR_PLUGIN_STATE_DIR"));
}

#[test]
fn words_survive_a_shell() {
    assert_eq!(posix_quote("it's").unwrap(), r"'it'\''s'");
    assert_eq!(posix_quote("").unwrap(), "''");
    assert!(posix_quote("a\0b").is_err());
    let command = CommandSpec::new("/bin/echo".to_owned(), vec!["a b".to_owned(), "$x".to_owned()]);
    assert_eq!(command.posix_command_line().unwrap(), "'/bin/echo' 'a b' '$x'");
    let bad = CommandSpec::new("/bin/echo".to_owned(), vec!["a\0".to_owned()]);
    assert!(bad.posix_command_line().is_err());
}

#[test]
fn programs_are_looked_for_in_absolute_directories() {
    let search = vec!["/opt/bin".to_owned(), "relative".to_owned()];
    let candidates = executable_candidates("tmux", &search);
    assert_eq!(candidates[0], "/opt/bin/tmux");
    assert!(!candidates.iter().any(|path| path.starts_with("relative")));
    assert!(candidates.contains(&"/usr/bin/tmux".to_owned()));
    let mut executable = vec![false; candidates.len()];
    assert_eq!(resolve_executable("tmux".to_owned(), &candidates, &executable), "tmux");
    executable[1] = true;
    assert_eq!(
        resolve_executable("tmux".to_owned(), &candidates, &executable),
        candidates[1]
    );
    assert!(executable_candidates("/usr/bin/tmux", &search).is_empty());
    let binaries = ProcessBinaries::new("ssh".to_owned(), "tmux".to_owned());
    assert_eq!((binaries.ssh(), binaries.tmux()), ("ssh", "tmux"));
}

#[test]
fn targets_lead_to_machines() {
    for (target, destination, port) in [
        ("build", "build", None),
        ("me@build.example.net", "me@build.example.net", None),
        ("ssh://me@build", "me@build", None),
        ("ssh://me@build:2222", "me@build", Some(2222)),
    ] {
        let found = parse_target(target).unwrap();
        assert_eq!((found.destination.as_str(), found.port), (destination, port));
    }
    for refused in ["", "-oProxyCommand=x", "a b", "a\nb", "ssh://a:b", "ssh://a:70000", "ssh://a:1:2"]
    {
        assert!(parse_target(refused).is_none(), "{refused:?}");
    }
}

#[test]
fn aliases_are_literal_and_listed_once() {
    let configuration = "Host build *.example.net\n  HostName b\nhost web build !old\nMatch all\n";
    assert_eq!(literal_aliases(configuration), ["build", "web"]);
    assert!(literal_aliases("").is_empty());
}
