//! The keybinding that opens Tether from Herdr: when it may be installed, what
//! is written, and when it can be taken back.

use vstd::prelude::*;
use vstd::slice::*;
use vstd::string::*;
use vstd::utf8::*;

use crate::backend::{join_path, joined_path};
use crate::document::{is_key, step_views, Step, StepView};
use crate::path_text::{
    file_name, file_name_of, find_name_start, name_start, trimmed_length, trimmed_path,
};
use crate::failure::{led_to, plain, Failure, FailureView};
use crate::text::{
    blank, chars_of, decode, is_blank, lemma_encode_add, opt_view, text_between, utf8_fault,
    white_space,
};
use crate::toml_text::{
    empty_document, field_lines, holds_too, is_document, is_text, leaf_views, line_breaks,
    parse_toml, section_added, toml_leaves, with_section, LeafView, ScalarView, Section, TomlLeaf,
};

verus! {

/// The binding that is added to Herdr's configuration.
pub const TETHER_KEYBINDING: &'static str =
    "[[keys.command]]\nkey = \"prefix+t\"\ntype = \"plugin_action\"\ncommand = \"moneycaringcoder.tether.open\"\ndescription = \"Tether: Open\"\n";

pub const TETHER_KEY: &'static str = "prefix+t";

pub const TETHER_ACTION: &'static str = "moneycaringcoder.tether.open";

/// What installing the keybinding did.
#[derive(Debug, PartialEq, Eq)]
pub enum HerdrKeybindingInstall {
    Installed { backup: String },
    AlreadyInstalled,
}

/// What taking the keybinding back did.
#[derive(Clone, Copy, Debug, PartialEq, Eq, Structural)]
pub enum HerdrKeybindingRollback {
    Restored,
}

/// Why the keybinding is not installed or not taken back.
#[derive(Debug, PartialEq, Eq)]
pub enum KeybindingError {
    /// The configuration is not UTF-8, for this reason.
    NotUtf8(String),
    /// The configuration is no TOML document, for this reason.
    NotToml(String),
    /// Another command has the key.
    CommandBound,
    /// Another action has the key.
    ActionBound,
    /// A backup of something else is in the way.
    BackupExists,
    /// The binding cannot be added to this document, for this reason.
    CannotMerge(String),
    /// The configuration is not what was installed.
    Edited,
    /// No variable says where Herdr's configuration is.
    NoConfigPath,
}

/// The contents of a [`KeybindingError`].
pub enum KeybindingErrorView {
    NotUtf8(Seq<char>),
    NotToml(Seq<char>),
    CommandBound,
    ActionBound,
    BackupExists,
    CannotMerge(Seq<char>),
    Edited,
    NoConfigPath,
}

impl View for KeybindingError {
    type V = KeybindingErrorView;

    open spec fn view(&self) -> KeybindingErrorView {
        match self {
            KeybindingError::NotUtf8(reason) => KeybindingErrorView::NotUtf8(reason@),
            KeybindingError::NotToml(reason) => KeybindingErrorView::NotToml(reason@),
            KeybindingError::CommandBound => KeybindingErrorView::CommandBound,
            KeybindingError::ActionBound => KeybindingErrorView::ActionBound,
            KeybindingError::BackupExists => KeybindingErrorView::BackupExists,
            KeybindingError::CannotMerge(reason) => KeybindingErrorView::CannotMerge(reason@),
            KeybindingError::Edited => KeybindingErrorView::Edited,
            KeybindingError::NoConfigPath => KeybindingErrorView::NoConfigPath,
        }
    }
}

impl KeybindingErrorView {
    /// What went wrong, for a reader. `path` is the configuration and `backup`
    /// its backup.
    pub open spec fn text(self, path: Seq<char>, backup: Seq<char>) -> Seq<char> {
        match self {
            KeybindingErrorView::NotUtf8(_) => "Herdr config `"@ + path + "` is not UTF-8"@,
            KeybindingErrorView::NotToml(_) => "parse Herdr config `"@ + path + "` as TOML"@,
            KeybindingErrorView::CommandBound =>
                "Herdr key `prefix+t` is already bound; config was not changed and the existing command was not displayed"@,
            KeybindingErrorView::ActionBound =>
                "Herdr key `prefix+t` is already bound; config was not changed and the existing action was not displayed"@,
            KeybindingErrorView::BackupExists => "Tether keybinding backup `"@ + backup
                + "` already exists; config was not changed"@,
            KeybindingErrorView::CannotMerge(_) =>
                "Tether keybinding cannot be merged into Herdr config `"@ + path
                + "`; config was not changed"@,
            KeybindingErrorView::Edited =>
                "Herdr config changed after Tether installed the keybinding; rollback refused without overwriting those edits"@,
            KeybindingErrorView::NoConfigPath =>
                "HOME is not set and XDG_CONFIG_HOME is unavailable"@,
        }
    }

    /// What went wrong, with the reason where something else gave one.
    pub open spec fn failure(self, path: Seq<char>, backup: Seq<char>) -> FailureView {
        match self {
            KeybindingErrorView::NotUtf8(reason) => led_to(
                self.text(path, backup),
                plain(reason),
            ),
            KeybindingErrorView::NotToml(reason) => led_to(
                self.text(path, backup),
                plain(reason),
            ),
            KeybindingErrorView::CannotMerge(reason) => led_to(
                self.text(path, backup),
                plain(reason),
            ),
            _ => plain(self.text(path, backup)),
        }
    }
}

impl KeybindingError {
    /// What went wrong, for a reader. `path` is the configuration and `backup`
    /// its backup.
    pub fn message(&self, path: &str, backup: &str) -> (text: String)
        ensures
            text@ == self@.text(path@, backup@),
    {
        match self {
            KeybindingError::NotUtf8(_) => "Herdr config `".to_owned().concat(path).concat(
                "` is not UTF-8",
            ),
            KeybindingError::NotToml(_) => "parse Herdr config `".to_owned().concat(path).concat(
                "` as TOML",
            ),
            KeybindingError::CommandBound =>
                "Herdr key `prefix+t` is already bound; config was not changed and the existing command was not displayed".to_owned(),
            KeybindingError::ActionBound =>
                "Herdr key `prefix+t` is already bound; config was not changed and the existing action was not displayed".to_owned(),
            KeybindingError::BackupExists => "Tether keybinding backup `".to_owned().concat(
                backup,
            ).concat("` already exists; config was not changed"),
            KeybindingError::CannotMerge(_) =>
                "Tether keybinding cannot be merged into Herdr config `".to_owned().concat(
                path,
            ).concat("`; config was not changed"),
            KeybindingError::Edited =>
                "Herdr config changed after Tether installed the keybinding; rollback refused without overwriting those edits".to_owned(),
            KeybindingError::NoConfigPath =>
                "HOME is not set and XDG_CONFIG_HOME is unavailable".to_owned(),
        }
    }

    /// What went wrong, with the reason where something else gave one.
    pub fn failure(self, path: &str, backup: &str) -> (failure: Failure)
        ensures
            failure@ == self@.failure(path@, backup@),
    {
        let text = self.message(path, backup);
        match self {
            KeybindingError::NotUtf8(reason) => Failure::new(reason).context(text),
            KeybindingError::NotToml(reason) => Failure::new(reason).context(text),
            KeybindingError::CannotMerge(reason) => Failure::new(reason).context(text),
            _ => Failure::new(text),
        }
    }
}

/// A path that leads from `start` through arrays only.
pub open spec fn in_arrays_below(path: Seq<StepView>, start: Seq<StepView>) -> bool {
    &&& start.is_prefix_of(path)
    &&& forall|i: int| start.len() <= i < path.len() ==> (#[trigger] path[i]) is Item
}

/// The key, at `start` or in arrays below it.
pub open spec fn key_at(leaves: Seq<LeafView>, start: Seq<StepView>) -> bool {
    exists|i: int|
        0 <= i < leaves.len() && (#[trigger] leaves[i]).value == ScalarView::Text(TETHER_KEY@)
            && in_arrays_below(leaves[i].path, start)
}

/// A text at exactly `path`.
pub open spec fn text_at(leaves: Seq<LeafView>, path: Seq<StepView>, text: Seq<char>) -> bool {
    exists|i: int|
        0 <= i < leaves.len() && (#[trigger] leaves[i]).value == ScalarView::Text(text)
            && leaves[i].path == path
}

/// The path of a field of a command binding.
pub open spec fn command_field(at: int, field: Seq<char>) -> Seq<StepView> {
    seq![
        StepView::Key("keys"@),
        StepView::Key("command"@),
        StepView::Item(at),
        StepView::Key(field),
    ]
}

/// The command binding at `at` has the key.
pub open spec fn command_has_key(leaves: Seq<LeafView>, at: int) -> bool {
    key_at(leaves, command_field(at, "key"@))
}

/// The command binding at `at` opens Tether.
pub open spec fn command_opens_tether(leaves: Seq<LeafView>, at: int) -> bool {
    text_at(leaves, command_field(at, "type"@), "plugin_action"@) && text_at(
        leaves,
        command_field(at, "command"@),
        TETHER_ACTION@,
    )
}

/// Some command other than one binding of Tether has the key.
pub open spec fn command_bound(leaves: Seq<LeafView>) -> bool {
    ||| exists|at: int| #[trigger]
        command_has_key(leaves, at) && !command_opens_tether(leaves, at)
    ||| exists|a: int, b: int|
        a != b && #[trigger] command_has_key(leaves, a) && #[trigger] command_has_key(leaves, b)
}

/// Some action of Herdr's own has the key.
pub open spec fn action_bound(leaves: Seq<LeafView>) -> bool {
    exists|name: Seq<char>|
        name != "command"@ && name != "prefix"@ && #[trigger] key_at(leaves, action_path(name))
}

/// The binding of Tether is there already.
pub open spec fn tether_bound(leaves: Seq<LeafView>) -> bool {
    exists|at: int| #[trigger] command_has_key(leaves, at)
}

/// The scalars of Herdr's configuration, or why it is no document; a blank text
/// is an empty document.
pub open spec fn config_leaves(text: Seq<char>) -> Result<Seq<LeafView>, Seq<char>> {
    if blank(text) {
        Ok(Seq::empty())
    } else {
        toml_leaves(text)
    }
}

/// The configuration with the binding added behind an empty line.
pub open spec fn with_keybinding(source: Seq<u8>) -> Seq<u8> {
    source + (if source.len() > 0 && source.last() != 10u8 {
        seq![10u8]
    } else {
        Seq::empty()
    }) + (if source.len() > 0 {
        seq![10u8]
    } else {
        Seq::empty()
    }) + TETHER_KEYBINDING.spec_bytes()
}

/// The configuration that taking the binding back leaves, or none if `current`
/// is neither what was installed nor what was there before.
pub open spec fn restored(backup: Seq<u8>, current: Seq<u8>) -> Option<Seq<u8>> {
    if current == with_keybinding(backup) || current == backup {
        Some(backup)
    } else {
        None
    }
}

/// The configuration with the binding added.
pub fn append_keybinding(source: &Vec<u8>) -> (updated: Vec<u8>)
    ensures
        updated@ == with_keybinding(source@),
{
    let mut updated: Vec<u8> = Vec::new();
    push_bytes(&mut updated, source.as_slice());
    if source.len() > 0 && source[source.len() - 1] != 10u8 {
        updated.push(10u8);
    }
    if source.len() > 0 {
        updated.push(10u8);
    }
    push_bytes(&mut updated, TETHER_KEYBINDING.as_bytes());
    assert(updated@ =~= with_keybinding(source@));
    updated
}

/// Adds `more` behind `bytes`.
fn push_bytes(bytes: &mut Vec<u8>, more: &[u8])
    ensures
        final(bytes)@ == old(bytes)@ + more@,
{
    let ghost before = bytes@;
    let mut i: usize = 0;
    assert(before + more@.take(0) =~= before);
    while i < more.len()
        invariant
            i <= more@.len(),
            bytes@ == before + more@.take(i as int),
        decreases more.len() - i,
    {
        bytes.push(more[i]);
        i += 1;
        assert(before + more@.take(i as int) =~= (before + more@.take(i - 1)).push(more@[i - 1]));
    }
    assert(more@.take(i as int) =~= more@);
}

/// Whether two byte strings are the same.
fn same_bytes(a: &Vec<u8>, b: &Vec<u8>) -> (r: bool)
    ensures
        r == (a@ == b@),
{
    if a.len() != b.len() {
        return false;
    }
    let mut i: usize = 0;
    while i < a.len()
        invariant
            i <= a@.len(),
            a@.len() == b@.len(),
            forall|j: int| 0 <= j < i ==> a@[j] == b@[j],
        decreases a.len() - i,
    {
        if a[i] != b[i] {
            return false;
        }
        i += 1;
    }
    assert(a@ =~= b@);
    true
}

/// Whether the steps from `from` on are all items of arrays.
fn items_from(path: &Vec<Step>, from: usize) -> (r: bool)
    requires
        from <= path@.len(),
    ensures
        r == (forall|i: int|
            from <= i < step_views(path@).len() ==> (#[trigger] step_views(path@)[i]) is Item),
{
    let mut i: usize = from;
    while i < path.len()
        invariant
            from <= i <= path@.len(),
            forall|j: int| from <= j < i ==> (#[trigger] step_views(path@)[j]) is Item,
        decreases path.len() - i,
    {
        if let Step::Key(_) = &path[i] {
            assert(!(step_views(path@)[i as int] is Item));
            return false;
        }
        assert(step_views(path@)[i as int] is Item);
        i += 1;
    }
    true
}

/// The command binding whose key is at `path`, if `path` leads to one.
fn bound_command(path: &Vec<Step>) -> (at: Option<usize>)
    ensures
        match at {
            Some(at) => in_arrays_below(step_views(path@), command_field(at as int, "key"@)),
            None => forall|at: int| #[trigger]
                command_field(at, "key"@).len() == 4 ==> !in_arrays_below(
                    step_views(path@),
                    command_field(at, "key"@),
                ),
        },
{
    let ghost steps = step_views(path@);
    if path.len() < 4 || !is_key(&path[0], "keys") || !is_key(&path[1], "command") || !is_key(
        &path[3],
        "key",
    ) || !items_from(path, 4) {
        proof {
            assert forall|at: int| !in_arrays_below(steps, #[trigger] command_field(at, "key"@)) by {
                let start = command_field(at, "key"@);
                if in_arrays_below(steps, start) {
                    assert(steps.subrange(0, 4)[0] == start[0]);
                    assert(steps.subrange(0, 4)[1] == start[1]);
                    assert(steps.subrange(0, 4)[3] == start[3]);
                }
            }
        }
        return None;
    }
    match &path[2] {
        Step::Item(at) => {
            assert(steps.subrange(0, 4) =~= command_field(*at as int, "key"@));
            Some(*at)
        },
        Step::Key(_) => {
            proof {
                assert forall|at: int| !in_arrays_below(
                    steps,
                    #[trigger] command_field(at, "key"@),
                ) by {
                    let start = command_field(at, "key"@);
                    if in_arrays_below(steps, start) {
                        assert(steps.subrange(0, 4)[2] == start[2]);
                    }
                }
            }
            None
        },
    }
}

/// Whether `path` leads to the key of an action of Herdr's own.
fn is_action_key(path: &Vec<Step>) -> (r: bool)
    ensures
        r == exists|name: Seq<char>|
            name != "command"@ && name != "prefix"@ && in_arrays_below(
                step_views(path@),
                #[trigger] action_path(name),
            ),
{
    let ghost steps = step_views(path@);
    if path.len() < 2 || !is_key(&path[0], "keys") || is_key(&path[1], "command") || is_key(
        &path[1],
        "prefix",
    ) || !items_from(path, 2) {
        proof {
            assert forall|name: Seq<char>|
                name != "command"@ && name != "prefix"@ implies !in_arrays_below(
                steps,
                #[trigger] action_path(name),
            ) by {
                let start = action_path(name);
                if in_arrays_below(steps, start) {
                    assert(steps.subrange(0, 2)[0] == start[0]);
                    assert(steps.subrange(0, 2)[1] == start[1]);
                }
            }
        }
        return false;
    }
    match &path[1] {
        Step::Key(name) => {
            assert(steps.subrange(0, 2) =~= action_path(name@));
            true
        },
        Step::Item(_) => {
            proof {
                assert forall|name: Seq<char>| !in_arrays_below(
                    steps,
                    #[trigger] action_path(name),
                ) by {
                    let start = action_path(name);
                    if in_arrays_below(steps, start) {
                        assert(steps.subrange(0, 2)[1] == start[1]);
                    }
                }
            }
            false
        },
    }
}

/// The path of an action of Herdr's own.
pub open spec fn action_path(name: Seq<char>) -> Seq<StepView> {
    seq![StepView::Key("keys"@), StepView::Key(name)]
}

/// Whether a leaf is a field of the command binding at `at` with the given text.
fn is_command_field(leaf: &TomlLeaf, at: usize, field: &str, text: &str) -> (r: bool)
    ensures
        r == (leaf@.value == ScalarView::Text(text@) && leaf@.path == command_field(
            at as int,
            field@,
        )),
{
    let ghost steps = leaf@.path;
    let ghost wanted = command_field(at as int, field@);
    if leaf.path.len() != 4 {
        assert(steps.len() != wanted.len());
        return false;
    }
    let same_item = match &leaf.path[2] {
        Step::Item(found) => *found == at,
        Step::Key(_) => false,
    };
    let r = is_text(&leaf.value, text) && is_key(&leaf.path[0], "keys") && is_key(
        &leaf.path[1],
        "command",
    ) && same_item && is_key(&leaf.path[3], field);
    proof {
        assert(steps[0] == leaf.path@[0]@ && steps[1] == leaf.path@[1]@ && steps[2]
            == leaf.path@[2]@ && steps[3] == leaf.path@[3]@);
        if r {
            assert(steps =~= wanted);
        } else if steps == wanted {
            assert(steps[0] == wanted[0] && steps[1] == wanted[1] && steps[2] == wanted[2]
                && steps[3] == wanted[3]);
        }
    }
    r
}

/// Whether a field of the command binding at `at` has the given text.
fn field_is(leaves: &Vec<TomlLeaf>, at: usize, field: &str, text: &str) -> (r: bool)
    ensures
        r == text_at(leaf_views(leaves@), command_field(at as int, field@), text@),
{
    let ghost all = leaf_views(leaves@);
    let mut i: usize = 0;
    while i < leaves.len()
        invariant
            i <= leaves@.len(),
            all == leaf_views(leaves@),
            forall|j: int|
                0 <= j < i ==> !((#[trigger] all[j]).value == ScalarView::Text(text@)
                    && all[j].path == command_field(at as int, field@)),
        decreases leaves.len() - i,
    {
        assert(all[i as int] == leaves@[i as int]@);
        if is_command_field(&leaves[i], at, field, text) {
            return true;
        }
        i += 1;
    }
    false
}

/// What the bindings of a document allow.
pub enum BindingVerdict {
    CommandBound,
    ActionBound,
    TetherBound,
    Free,
}

/// What the bindings of a document allow. A command that has the key counts
/// before an action, and an action before Tether's own binding.
pub open spec fn verdict(leaves: Seq<LeafView>) -> BindingVerdict {
    if command_bound(leaves) {
        BindingVerdict::CommandBound
    } else if action_bound(leaves) {
        BindingVerdict::ActionBound
    } else if tether_bound(leaves) {
        BindingVerdict::TetherBound
    } else {
        BindingVerdict::Free
    }
}

/// What the bindings of a document allow.
fn check_bindings(leaves: &Vec<TomlLeaf>) -> (r: BindingVerdict)
    ensures
        r == verdict(leaf_views(leaves@)),
{
    let ghost all = leaf_views(leaves@);
    let mut bound: Option<usize> = None;
    let mut action = false;
    let mut i: usize = 0;
    while i < leaves.len()
        invariant
            i <= leaves@.len(),
            all == leaf_views(leaves@),
            match bound {
                Some(at) => command_has_key(all, at as int) && command_opens_tether(all, at as int)
                    && forall|j: int, other: int|
                    0 <= j < i && (#[trigger] all[j]).value == ScalarView::Text(TETHER_KEY@)
                        && in_arrays_below(all[j].path, #[trigger] command_field(other, "key"@))
                        ==> other == at,
                None => forall|j: int, other: int|
                    0 <= j < i && (#[trigger] all[j]).value == ScalarView::Text(TETHER_KEY@)
                        ==> !in_arrays_below(
                        all[j].path,
                        #[trigger] command_field(other, "key"@),
                    ),
            },
            action == exists|j: int, name: Seq<char>|
                0 <= j < i && (#[trigger] all[j]).value == ScalarView::Text(TETHER_KEY@) && name
                    != "command"@ && name != "prefix"@ && in_arrays_below(
                    all[j].path,
                    #[trigger] action_path(name),
                ),
        decreases leaves.len() - i,
    {
        let leaf = &leaves[i];
        let ghost steps = leaf@.path;
        assert(all[i as int] == leaf@);
        if is_text(&leaf.value, TETHER_KEY) {
            match bound_command(&leaf.path) {
                Some(at) => {
                    assert(command_has_key(all, at as int));
                    proof {
                        assert forall|other: int| in_arrays_below(
                            steps,
                            #[trigger] command_field(other, "key"@),
                        ) implies other == at by {
                            let start = command_field(other, "key"@);
                            let mine = command_field(at as int, "key"@);
                            assert(steps.subrange(0, 4)[2] == start[2]);
                            assert(steps.subrange(0, 4)[2] == mine[2]);
                        }
                    }
                    match bound {
                        Some(first) => {
                            if first != at {
                                assert(command_bound(all));
                                return BindingVerdict::CommandBound;
                            }
                        },
                        None => {
                            if !(field_is(leaves, at, "type", "plugin_action") && field_is(
                                leaves,
                                at,
                                "command",
                                TETHER_ACTION,
                            )) {
                                assert(command_bound(all));
                                return BindingVerdict::CommandBound;
                            }
                            bound = Some(at);
                        },
                    }
                },
                None => {
                    proof {
                        assert forall|other: int| !in_arrays_below(
                            steps,
                            #[trigger] command_field(other, "key"@),
                        ) by {
                            assert(command_field(other, "key"@).len() == 4);
                        }
                    }
                },
            }
            if is_action_key(&leaf.path) {
                action = true;
            }
        }
        i += 1;
    }
    proof {
        assert(!command_bound(all)) by {
            if command_bound(all) {
                if exists|at: int| #[trigger]
                    command_has_key(all, at) && !command_opens_tether(all, at) {
                    let at = choose|at: int| #[trigger]
                        command_has_key(all, at) && !command_opens_tether(all, at);
                    assert(command_field(at, "key"@).len() == 4);
                }
            }
        }
        if action {
            let (j, name) = choose|j: int, name: Seq<char>|
                0 <= j < i && (#[trigger] all[j]).value == ScalarView::Text(TETHER_KEY@) && name
                    != "command"@ && name != "prefix"@ && in_arrays_below(
                    all[j].path,
                    #[trigger] action_path(name),
                );
            assert(key_at(all, action_path(name)));
        } else if action_bound(all) {
            let name = choose|name: Seq<char>|
                name != "command"@ && name != "prefix"@ && #[trigger] key_at(
                    all,
                    action_path(name),
                );
        }
        if bound is None && tether_bound(all) {
            let at = choose|at: int| #[trigger] command_has_key(all, at);
            assert(command_field(at, "key"@).len() == 4);
        }
    }
    if action {
        BindingVerdict::ActionBound
    } else if bound.is_some() {
        BindingVerdict::TetherBound
    } else {
        BindingVerdict::Free
    }
}

/// Why the binding is not added to the configuration, or that it is there.
pub enum InstallView {
    AlreadyInstalled,
    Add,
    Refused(KeybindingErrorView),
}

/// What is to be done with a configuration.
pub open spec fn install_decision(source: Seq<u8>) -> InstallView {
    if !valid_utf8(source) {
        InstallView::Refused(KeybindingErrorView::NotUtf8(utf8_fault(source)))
    } else {
        match config_leaves(decode_utf8(source)) {
            Err(reason) => InstallView::Refused(KeybindingErrorView::NotToml(reason)),
            Ok(leaves) => match verdict(leaves) {
                BindingVerdict::CommandBound => InstallView::Refused(
                    KeybindingErrorView::CommandBound,
                ),
                BindingVerdict::ActionBound => InstallView::Refused(
                    KeybindingErrorView::ActionBound,
                ),
                BindingVerdict::TetherBound => InstallView::AlreadyInstalled,
                BindingVerdict::Free => InstallView::Add,
            },
        }
    }
}

/// A configuration to which the binding may be added.
#[derive(Debug, PartialEq, Eq)]
pub struct InstallCandidate {
    source: Vec<u8>,
}

/// A configuration that is blank holds only the white space that TOML knows.
pub open spec fn readable(source: Seq<u8>) -> bool {
    blank(decode_utf8(source)) ==> empty_document(decode_utf8(source))
}

/// The scalars of the configuration with the binding added.
pub open spec fn merged_leaves(source: Seq<u8>) -> Result<Seq<LeafView>, Seq<char>> {
    toml_leaves(decode_utf8(with_keybinding(source)))
}

/// What is written when the binding is added: the backup first, and then the
/// configuration.
#[derive(Debug, PartialEq, Eq)]
pub struct InstallPlan {
    /// Whether a backup of the same contents is in the way and goes first.
    pub remove_backup: bool,
    pub backup: Vec<u8>,
    pub updated: Vec<u8>,
}

/// How an installation begins.
#[derive(Debug, PartialEq, Eq)]
pub enum InstallStep {
    AlreadyInstalled,
    Add(InstallCandidate),
}

impl InstallCandidate {
    /// The configuration as it was read.
    pub closed spec fn source_view(self) -> Seq<u8> {
        self.source@
    }

    /// The binding may be added to the configuration.
    #[verifier::type_invariant]
    spec fn addable(self) -> bool {
        install_decision(self.source@) == InstallView::Add
    }

    /// Takes the backup that is there, if there is one, and says what is
    /// written. A second installation then finds the binding, unless something
    /// else stands in the configuration in place of the table `keys`.
    pub fn install_unlocked(self, backup: Option<Vec<u8>>) -> (r: Result<
        InstallPlan,
        KeybindingError,
    >)
        ensures
            ({
                let source = self.source_view();
                let updated = with_keybinding(source);
                if backup is Some && backup->0@ != source {
                    r is Err && r->Err_0@ == KeybindingErrorView::BackupExists
                } else {
                    match merged_leaves(source) {
                        Err(reason) => r is Err && r->Err_0@ == KeybindingErrorView::CannotMerge(
                            reason,
                        ),
                        Ok(_) => r is Ok && r->Ok_0.remove_backup == (backup is Some)
                            && r->Ok_0.backup@ == source && r->Ok_0.updated@ == updated,
                    }
                }
            }),
            r is Ok && readable(self.source_view()) && !tether_section().displaced(
                merged_leaves(self.source_view())->Ok_0,
            ) ==> install_decision(r->Ok_0.updated@) == InstallView::AlreadyInstalled,
    {
        proof {
            use_type_invariant(&self);
        }
        let remove_backup = match &backup {
            Some(bytes) => {
                if !same_bytes(bytes, &self.source) {
                    return Err(KeybindingError::BackupExists);
                }
                true
            },
            None => false,
        };
        let ghost source = self.source@;
        let ghost text = decode_utf8(source);
        let updated = append_keybinding(&self.source);
        proof {
            lemma_added_text(source);
            lemma_section_text();
        }
        match decode(&updated) {
            Err(reason) => Err(KeybindingError::CannotMerge(reason)),
            Ok(merged) => match parse_toml(merged.as_str()) {
                Err(reason) => Err(KeybindingError::CannotMerge(reason)),
                Ok(leaves) => {
                    proof {
                        let found = config_leaves(text)->Ok_0;
                        let section = tether_section();
                        let all = leaf_views(leaves@);
                        assert(merged@ == with_section(text, added_gap(source), section));
                        if readable(source) && !section.displaced(all) {
                            assert(is_document(text, found));
                            assert(section_added(all, found, section));
                            let at = choose|at: int|
                                holds_too(all, found, #[trigger] section.leaves(at));
                            assert(section.leaves(at) =~= binding_leaves(at));
                            lemma_binding_is_found(found, all, at);
                            let last = merged@.len() - section.text().len();
                            assert(section.text()[0] == '[');
                            assert(merged@[last] == '[');
                            assert(!white_space('['));
                            assert(!blank(merged@));
                        }
                    }
                    Ok(InstallPlan { remove_backup, backup: self.source, updated })
                },
            },
        }
    }
}

/// The path beside `path` whose name has `suffix` behind it. A path without a
/// name, such as the root or `..`, stands for a directory.
pub open spec fn beside(path: Seq<char>, suffix: Seq<char>) -> Seq<char> {
    let whole = trimmed_path(path);
    let start = name_start(whole);
    match file_name(path) {
        Some(name) => joined_path(trimmed_path(whole.take(start)), name + suffix),
        None => joined_path(path, suffix),
    }
}

/// The configuration of Herdr, to which the keybinding is added.
#[derive(Debug, PartialEq, Eq)]
pub struct HerdrKeybindingStore {
    path: String,
}

impl View for HerdrKeybindingStore {
    type V = Seq<char>;

    closed spec fn view(&self) -> Seq<char> {
        self.path@
    }
}

impl HerdrKeybindingStore {
    /// The configuration at `path`.
    pub fn new(path: String) -> (store: Self)
        ensures
            store@ == path@,
    {
        HerdrKeybindingStore { path }
    }

    /// The path of the configuration.
    pub fn path(&self) -> (path: &str)
        ensures
            path@ == self@,
    {
        self.path.as_str()
    }

    /// Where Herdr's configuration is, from the process environment.
    pub fn path_from_env(
        config_path: Option<String>,
        config_home: Option<String>,
        home: Option<String>,
    ) -> (r: Result<String, KeybindingError>)
        ensures
            match (opt_view(config_path), opt_view(config_home), opt_view(home)) {
                (Some(path), _, _) => r is Ok && r->Ok_0@ == path,
                (None, Some(path), _) => r is Ok && r->Ok_0@ == joined_path(
                    path,
                    "herdr/config.toml"@,
                ),
                (None, None, Some(path)) => r is Ok && r->Ok_0@ == joined_path(
                    path,
                    ".config/herdr/config.toml"@,
                ),
                (None, None, None) => r is Err && r->Err_0@ == KeybindingErrorView::NoConfigPath,
            },
    {
        if let Some(path) = config_path {
            return Ok(path);
        }
        if let Some(path) = config_home {
            return Ok(join_path(path.as_str(), "herdr/config.toml"));
        }
        match home {
            Some(path) => Ok(join_path(path.as_str(), ".config/herdr/config.toml")),
            None => Err(KeybindingError::NoConfigPath),
        }
    }

    /// Names the keybinding backup beside `path`.
    pub fn backup_path_for(path: &str) -> (backup: String)
        ensures
            backup@ == beside(path@, ".tether-keybinding.bak"@),
    {
        let chars = chars_of(path);
        assert(chars@.take(chars@.len() as int) =~= chars@);
        let end = trimmed_length(&chars, chars.len());
        let ghost whole = chars@.take(end as int);
        let start = find_name_start(&chars, end);
        let name = match file_name_of(path) {
            Some(name) => name,
            None => {
                return join_path(path, ".tether-keybinding.bak");
            },
        };
        let parent_end = trimmed_length(&chars, start);
        assert(whole.take(start as int) =~= chars@.take(start as int));
        let parent = text_between(&chars, 0, parent_end);
        assert(parent@ =~= chars@.take(parent_end as int));
        let renamed = name.concat(".tether-keybinding.bak");
        join_path(parent.as_str(), renamed.as_str())
    }

    /// Decides what is to be done with the configuration. One that is missing
    /// counts as empty.
    pub fn install(&self, source: Vec<u8>) -> (r: Result<InstallStep, KeybindingError>)
        ensures
            match install_decision(source@) {
                InstallView::Refused(error) => r is Err && r->Err_0@ == error,
                InstallView::AlreadyInstalled => r == Ok::<InstallStep, KeybindingError>(
                    InstallStep::AlreadyInstalled,
                ),
                InstallView::Add => r is Ok && r->Ok_0 is Add && r->Ok_0->Add_0.source_view()
                    == source@,
            },
    {
        let text = match decode(&source) {
            Ok(text) => text,
            Err(reason) => {
                return Err(KeybindingError::NotUtf8(reason));
            },
        };
        let leaves = if is_blank(text.as_str()) {
            let none: Vec<TomlLeaf> = Vec::new();
            assert(leaf_views(none@) =~= Seq::empty());
            none
        } else {
            match parse_toml(text.as_str()) {
                Ok(leaves) => leaves,
                Err(reason) => {
                    return Err(KeybindingError::NotToml(reason));
                },
            }
        };
        match check_bindings(&leaves) {
            BindingVerdict::CommandBound => Err(KeybindingError::CommandBound),
            BindingVerdict::ActionBound => Err(KeybindingError::ActionBound),
            BindingVerdict::TetherBound => Ok(InstallStep::AlreadyInstalled),
            BindingVerdict::Free => Ok(InstallStep::Add(InstallCandidate { source })),
        }
    }

    /// The configuration to restore from the backup, if nobody has edited what
    /// was installed.
    pub fn rollback(&self, backup: Vec<u8>, current: &Vec<u8>) -> (r: Result<
        Vec<u8>,
        KeybindingError,
    >)
        ensures
            match restored(backup@, current@) {
                Some(source) => r is Ok && r->Ok_0@ == source,
                None => r is Err && r->Err_0@ == KeybindingErrorView::Edited,
            },
    {
        let installed = append_keybinding(&backup);
        if !same_bytes(current, &installed) && !same_bytes(current, &backup) {
            return Err(KeybindingError::Edited);
        }
        Ok(backup)
    }
}

/// An installation can be taken back to the exact bytes from before it, the
/// binding stands behind those bytes, and anything else that stands there is
/// left alone.
pub proof fn rollback_undoes_the_installation(source: Seq<u8>, edited: Seq<u8>)
    requires
        edited != source,
        edited != with_keybinding(source),
    ensures
        restored(source, with_keybinding(source)) == Some(source),
        restored(source, edited) is None,
        source.is_prefix_of(with_keybinding(source)),
        TETHER_KEYBINDING.spec_bytes().is_suffix_of(with_keybinding(source)),
{
    let updated = with_keybinding(source);
    assert(updated.subrange(0, source.len() as int) =~= source);
    let binding = TETHER_KEYBINDING.spec_bytes();
    assert(updated.subrange(updated.len() - binding.len(), updated.len() as int) =~= binding);
}

/// The binding as a section of the configuration.
pub open spec fn tether_section() -> Section {
    Section {
        outer: "keys"@,
        inner: "command"@,
        fields: seq![
            ("key"@, TETHER_KEY@),
            ("type"@, "plugin_action"@),
            ("command"@, TETHER_ACTION@),
            ("description"@, "Tether: Open"@),
        ],
    }
}

/// The scalars of the added binding, as the command binding at `at`.
pub open spec fn binding_leaves(at: int) -> Seq<LeafView> {
    seq![
        LeafView { path: command_field(at, "key"@), value: ScalarView::Text(TETHER_KEY@) },
        LeafView { path: command_field(at, "type"@), value: ScalarView::Text("plugin_action"@) },
        LeafView { path: command_field(at, "command"@), value: ScalarView::Text(TETHER_ACTION@) },
        LeafView {
            path: command_field(at, "description"@),
            value: ScalarView::Text("Tether: Open"@),
        },
    ]
}

/// The line feeds between a configuration and the binding.
spec fn added_gap(source: Seq<u8>) -> Seq<char> {
    (if source.len() > 0 && source.last() != 10u8 {
        seq!['\n']
    } else {
        Seq::empty()
    }) + (if source.len() > 0 {
        seq!['\n']
    } else {
        Seq::empty()
    })
}

/// The text of the binding is that of its section.
proof fn lemma_section_text()
    ensures
        TETHER_KEYBINDING@ == tether_section().text(),
        tether_section().plain(),
{
    let section = tether_section();
    reveal_strlit(
        "[[keys.command]]\nkey = \"prefix+t\"\ntype = \"plugin_action\"\ncommand = \"moneycaringcoder.tether.open\"\ndescription = \"Tether: Open\"\n",
    );
    reveal_strlit("keys");
    reveal_strlit("command");
    reveal_strlit("key");
    reveal_strlit("type");
    reveal_strlit("description");
    reveal_strlit("prefix+t");
    reveal_strlit("plugin_action");
    reveal_strlit("moneycaringcoder.tether.open");
    reveal_strlit("Tether: Open");
    reveal_with_fuel(field_lines, 5);
    let fields = section.fields;
    assert(fields.drop_last().drop_last().drop_last().drop_last() =~= Seq::empty());
    assert(TETHER_KEYBINDING@ =~= section.text());
}

/// The text of a configuration with the binding added.
proof fn lemma_added_text(source: Seq<u8>)
    requires
        valid_utf8(source),
    ensures
        valid_utf8(with_keybinding(source)),
        decode_utf8(with_keybinding(source)) == decode_utf8(source) + added_gap(source)
            + TETHER_KEYBINDING@,
        line_breaks(decode_utf8(source), added_gap(source)),
{
    let text = decode_utf8(source);
    let gap = added_gap(source);
    let whole = text + gap + TETHER_KEYBINDING@;
    decode_utf8_encode_utf8(source);
    is_ascii_chars_encode_utf8(gap);
    lemma_encode_add(text, gap);
    lemma_encode_add(text + gap, TETHER_KEYBINDING@);
    assert(with_keybinding(source) =~= encode_utf8(whole));
    encode_utf8_valid_utf8(whole);
    encode_utf8_decode_utf8(whole);
}

/// What stands at a path or in arrays below it is found in the merged document
/// if and only if one of the two parts holds it.
proof fn lemma_key_in_merged(
    merged: Seq<LeafView>,
    found: Seq<LeafView>,
    at: int,
    start: Seq<StepView>,
)
    requires
        holds_too(merged, found, binding_leaves(at)),
    ensures
        key_at(merged, start) <==> key_at(found, start) || key_at(binding_leaves(at), start),
{
    let added = binding_leaves(at);
    if key_at(merged, start) {
        let i = choose|i: int|
            0 <= i < merged.len() && (#[trigger] merged[i]).value == ScalarView::Text(TETHER_KEY@)
                && in_arrays_below(merged[i].path, start);
        assert(merged.contains(merged[i]));
        if found.contains(merged[i]) {
            let k = choose|k: int| 0 <= k < found.len() && found[k] == merged[i];
            assert(key_at(found, start));
        } else {
            let k = choose|k: int| 0 <= k < added.len() && added[k] == merged[i];
            assert(key_at(added, start));
        }
    }
    if key_at(found, start) {
        let i = choose|i: int|
            0 <= i < found.len() && (#[trigger] found[i]).value == ScalarView::Text(TETHER_KEY@)
                && in_arrays_below(found[i].path, start);
        assert(found.contains(found[i]));
        assert(merged.contains(found[i]));
        let k = choose|k: int| 0 <= k < merged.len() && merged[k] == found[i];
        assert(key_at(merged, start));
    }
    if key_at(added, start) {
        let i = choose|i: int|
            0 <= i < added.len() && (#[trigger] added[i]).value == ScalarView::Text(TETHER_KEY@)
                && in_arrays_below(added[i].path, start);
        assert(added.contains(added[i]));
        assert(merged.contains(added[i]));
        let k = choose|k: int| 0 <= k < merged.len() && merged[k] == added[i];
        assert(key_at(merged, start));
    }
}

/// Of the added scalars the key alone is the key, and it stands at one place.
proof fn lemma_key_in_binding(at: int, start: Seq<StepView>)
    requires
        start.len() > 0,
    ensures
        start.len() == 4 ==> (key_at(binding_leaves(at), start) <==> start == command_field(
            at,
            "key"@,
        )),
        start.len() == 2 && start[1] != StepView::Key("command"@) ==> !key_at(
            binding_leaves(at),
            start,
        ),
{
    let added = binding_leaves(at);
    let own = command_field(at, "key"@);
    reveal_strlit("prefix+t");
    reveal_strlit("plugin_action");
    reveal_strlit("moneycaringcoder.tether.open");
    reveal_strlit("Tether: Open");
    assert(TETHER_KEY@.len() == 8);
    assert("plugin_action"@.len() == 13);
    assert(TETHER_ACTION@.len() == 28);
    assert("Tether: Open"@.len() == 12);
    if start == own {
        assert(own.subrange(0, own.len() as int) =~= own);
        assert(in_arrays_below(added[0].path, start));
        assert(key_at(added, start));
    }
    if key_at(added, start) {
        let i = choose|i: int|
            0 <= i < added.len() && (#[trigger] added[i]).value == ScalarView::Text(TETHER_KEY@)
                && in_arrays_below(added[i].path, start);
        assert(i == 0);
        assert(own.subrange(0, start.len() as int) == start);
        if start.len() == 4 {
            assert(own.subrange(0, 4) =~= own);
        } else if start.len() == 2 {
            assert(start[1] == own[1]);
        }
    }
}

/// A document without the key in which one more command binding stands, Tether's
/// own, has the binding.
proof fn lemma_binding_is_found(found: Seq<LeafView>, merged: Seq<LeafView>, at: int)
    requires
        verdict(found) == BindingVerdict::Free,
        holds_too(merged, found, binding_leaves(at)),
    ensures
        verdict(merged) == BindingVerdict::TetherBound,
{
    assert forall|k: int| #[trigger] command_has_key(merged, k) implies k == at by {
        let start = command_field(k, "key"@);
        lemma_key_in_merged(merged, found, at, start);
        lemma_key_in_binding(at, start);
        assert(!command_has_key(found, k));
        assert(start == command_field(at, "key"@));
        assert(start[2] == command_field(at, "key"@)[2]);
    }
    lemma_key_in_merged(merged, found, at, command_field(at, "key"@));
    lemma_key_in_binding(at, command_field(at, "key"@));
    assert(command_has_key(merged, at));
    let added = binding_leaves(at);
    assert(added.contains(added[1]) && added.contains(added[2]));
    assert(merged.contains(added[1]) && merged.contains(added[2]));
    assert(command_opens_tether(merged, at));
    assert(!command_bound(merged));
    assert forall|name: Seq<char>|
        name != "command"@ && name != "prefix"@ implies !#[trigger] key_at(
        merged,
        action_path(name),
    ) by {
        lemma_key_in_merged(merged, found, at, action_path(name));
        lemma_key_in_binding(at, action_path(name));
        assert(!key_at(found, action_path(name)));
    }
    assert(!action_bound(merged));
}

} // verus!
