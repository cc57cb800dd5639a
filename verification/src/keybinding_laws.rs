//! What the keybinding is, when it is added, and how it is taken back.

use vstd::prelude::*;
use vstd::string::*;
use vstd::utf8::*;

use crate::document::StepView;
use crate::keybinding::{
    action_path, beside, command_has_key, in_arrays_below, install_decision, key_at, restored,
    text_at, tether_section, verdict, with_keybinding, BindingVerdict, InstallView,
    KeybindingErrorView, TETHER_ACTION, TETHER_KEY, TETHER_KEYBINDING,
};
use crate::path_text::{file_name, name_start, trimmed_path};
use crate::text::{blank, utf8_fault, white_space};
use crate::toml_text::{toml_leaves, LeafView, ScalarView};

verus! {

/// The binding opens Tether by `prefix+t`.
pub proof fn the_binding_opens_tether()
    ensures
        TETHER_KEY@ == "prefix+t"@,
        TETHER_ACTION@ == "moneycaringcoder.tether.open"@,
        tether_section().outer == "keys"@,
        tether_section().inner == "command"@,
        tether_section().fields.contains(("key"@, "prefix+t"@)),
        tether_section().fields.contains(("type"@, "plugin_action"@)),
        tether_section().fields.contains(("command"@, "moneycaringcoder.tether.open"@)),
{
    let fields = tether_section().fields;
    assert(fields[0] == ("key"@, "prefix+t"@));
    assert(fields[1] == ("type"@, "plugin_action"@));
    assert(fields[2] == ("command"@, "moneycaringcoder.tether.open"@));
}

/// The binding stands behind everything that was there, which stays as it is, on
/// lines of its own and behind an empty one.
pub proof fn the_binding_stands_behind_what_was_there(source: Seq<u8>)
    ensures
        ({
            let updated = with_keybinding(source);
            let binding = TETHER_KEYBINDING.spec_bytes();
            let n = source.len() as int;
            &&& updated.take(n) == source
            &&& updated.skip(updated.len() - binding.len()) == binding
            &&& n == 0 ==> updated == binding
            &&& n > 0 && source.last() == 10u8 ==> updated == source.push(10u8) + binding
            &&& n > 0 && source.last() != 10u8 ==> updated == source.push(10u8).push(10u8)
                + binding
        }),
{
    let updated = with_keybinding(source);
    let binding = TETHER_KEYBINDING.spec_bytes();
    assert(updated.take(source.len() as int) =~= source);
    assert(updated.skip(updated.len() - binding.len()) =~= binding);
    if source.len() == 0 {
        assert(updated =~= binding);
    } else if source.last() == 10u8 {
        assert(updated =~= source.push(10u8) + binding);
    } else {
        assert(updated =~= source.push(10u8).push(10u8) + binding);
    }
}

/// Taking the binding back gives exactly what was there before, and only where
/// nothing but the binding was added, or nothing at all.
pub proof fn taking_back_gives_what_was_there(backup: Seq<u8>, current: Seq<u8>)
    ensures
        restored(backup, with_keybinding(backup)) == Some(backup),
        restored(backup, backup) == Some(backup),
        current != backup && current != with_keybinding(backup) ==> restored(backup, current)
            is None,
{
}

/// The key stands at a path, alone or in a list.
pub open spec fn bound_at(leaves: Seq<LeafView>, start: Seq<StepView>) -> bool {
    exists|i: int|
        0 <= i < leaves.len() && (#[trigger] leaves[i]).value == ScalarView::Text("prefix+t"@)
            && leaves[i].path.len() >= start.len() && leaves[i].path.take(start.len() as int)
            == start && forall|k: int|
            start.len() <= k < leaves[i].path.len() ==> (#[trigger] leaves[i].path[k]) is Item
}

/// A key at a path is what is looked for.
proof fn lemma_bound(leaves: Seq<LeafView>, start: Seq<StepView>)
    ensures
        key_at(leaves, start) <==> bound_at(leaves, start),
{
    if key_at(leaves, start) {
        let i = choose|i: int|
            0 <= i < leaves.len() && (#[trigger] leaves[i]).value == ScalarView::Text(TETHER_KEY@)
                && in_arrays_below(leaves[i].path, start);
        assert(leaves[i].path.take(start.len() as int) =~= start);
        assert(leaves[i].value == ScalarView::Text("prefix+t"@));
    }
    if bound_at(leaves, start) {
        let i = choose|i: int|
            0 <= i < leaves.len() && (#[trigger] leaves[i]).value == ScalarView::Text("prefix+t"@)
                && leaves[i].path.len() >= start.len() && leaves[i].path.take(start.len() as int)
                == start && forall|k: int|
                start.len() <= k < leaves[i].path.len() ==> (#[trigger] leaves[i].path[k]) is Item;
        assert(start.is_prefix_of(leaves[i].path)) by {
            assert forall|k: int| 0 <= k < start.len() implies start[k] == leaves[i].path[k] by {
                assert(leaves[i].path.take(start.len() as int)[k] == leaves[i].path[k]);
            }
            assert(leaves[i].path.subrange(0, start.len() as int) =~= start);
        }
        assert(in_arrays_below(leaves[i].path, start));
    }
}

/// The path of a field of the command binding at `at`.
pub open spec fn command_path(at: int, field: Seq<char>) -> Seq<StepView> {
    seq![
        StepView::Key("keys"@),
        StepView::Key("command"@),
        StepView::Item(at),
        StepView::Key(field),
    ]
}

/// The binding may be added exactly if nothing has the key: no command, and no
/// action of Herdr's own.
pub proof fn the_binding_is_added_where_the_key_is_free(leaves: Seq<LeafView>)
    ensures
        verdict(leaves) == BindingVerdict::Free <==> {
            &&& forall|at: int| !#[trigger] bound_at(leaves, command_path(at, "key"@))
            &&& forall|name: Seq<char>|
                name != "command"@ && name != "prefix"@ ==> !bound_at(
                    leaves,
                    #[trigger] seq![StepView::Key("keys"@), StepView::Key(name)],
                )
        },
{
    assert forall|at: int| #[trigger]
        command_has_key(leaves, at) == bound_at(leaves, command_path(at, "key"@)) by {
        lemma_bound(leaves, command_path(at, "key"@));
    }
    assert forall|name: Seq<char>| #[trigger]
        key_at(leaves, action_path(name)) == bound_at(
            leaves,
            seq![StepView::Key("keys"@), StepView::Key(name)],
        ) by {
        lemma_bound(leaves, seq![StepView::Key("keys"@), StepView::Key(name)]);
    }
    if verdict(leaves) == BindingVerdict::Free {
        assert forall|at: int| !#[trigger] bound_at(leaves, command_path(at, "key"@)) by {
            assert(!command_has_key(leaves, at));
        }
        assert forall|name: Seq<char>| name != "command"@ && name != "prefix"@ implies !bound_at(
            leaves,
            #[trigger] seq![StepView::Key("keys"@), StepView::Key(name)],
        ) by {
            assert(!key_at(leaves, action_path(name)));
        }
    }
    if (forall|at: int| !#[trigger] bound_at(leaves, command_path(at, "key"@))) && (forall|
        name: Seq<char>,
    |
        name != "command"@ && name != "prefix"@ ==> !bound_at(
            leaves,
            #[trigger] seq![StepView::Key("keys"@), StepView::Key(name)],
        )) {
        assert forall|at: int| !#[trigger] command_has_key(leaves, at) by {
            assert(!bound_at(leaves, command_path(at, "key"@)));
        }
        assert forall|name: Seq<char>| name != "command"@ && name != "prefix"@ implies !#[trigger]
            key_at(leaves, action_path(name)) by {
            assert(!bound_at(leaves, seq![StepView::Key("keys"@), StepView::Key(name)]));
        }
    }
}

/// A command that has the key and does not open Tether is in the way; so is an
/// action of Herdr's own.
pub proof fn other_bindings_are_in_the_way(leaves: Seq<LeafView>, at: int, name: Seq<char>)
    ensures
        bound_at(leaves, command_path(at, "key"@)) && !(text_at(
            leaves,
            command_path(at, "type"@),
            "plugin_action"@,
        ) && text_at(leaves, command_path(at, "command"@), "moneycaringcoder.tether.open"@))
            ==> verdict(leaves) == BindingVerdict::CommandBound,
        name != "command"@ && name != "prefix"@ && bound_at(
            leaves,
            seq![StepView::Key("keys"@), StepView::Key(name)],
        ) ==> verdict(leaves) == BindingVerdict::CommandBound || verdict(leaves)
            == BindingVerdict::ActionBound,
        verdict(leaves) == BindingVerdict::TetherBound && bound_at(leaves, command_path(at, "key"@))
            ==> text_at(leaves, command_path(at, "command"@), "moneycaringcoder.tether.open"@),
{
    lemma_bound(leaves, command_path(at, "key"@));
    lemma_bound(leaves, seq![StepView::Key("keys"@), StepView::Key(name)]);
    assert(command_has_key(leaves, at) == bound_at(leaves, command_path(at, "key"@)));
    assert(key_at(leaves, action_path(name)) == bound_at(
        leaves,
        seq![StepView::Key("keys"@), StepView::Key(name)],
    ));
}

/// A configuration is added to exactly if it can be read and the key is free in
/// it; a blank one is read as empty. Every refusal says why.
pub proof fn configurations_are_read_before_they_are_changed(source: Seq<u8>)
    ensures
        !valid_utf8(source) ==> install_decision(source) == InstallView::Refused(
            KeybindingErrorView::NotUtf8(utf8_fault(source)),
        ),
        valid_utf8(source) && (forall|i: int|
            0 <= i < decode_utf8(source).len() ==> white_space(#[trigger] decode_utf8(source)[i]))
            ==> install_decision(source) == InstallView::Add,
        valid_utf8(source) && !blank(decode_utf8(source)) ==> match toml_leaves(
            decode_utf8(source),
        ) {
            Err(reason) => install_decision(source) == InstallView::Refused(
                KeybindingErrorView::NotToml(reason),
            ),
            Ok(leaves) => install_decision(source) == match verdict(leaves) {
                BindingVerdict::CommandBound => InstallView::Refused(
                    KeybindingErrorView::CommandBound,
                ),
                BindingVerdict::ActionBound => InstallView::Refused(
                    KeybindingErrorView::ActionBound,
                ),
                BindingVerdict::TetherBound => InstallView::AlreadyInstalled,
                BindingVerdict::Free => InstallView::Add,
            },
        },
{
    if valid_utf8(source) && blank(decode_utf8(source)) {
        let none = Seq::<LeafView>::empty();
        the_binding_is_added_where_the_key_is_free(none);
        assert(verdict(none) == BindingVerdict::Free);
    }
}

/// The backup stands beside the configuration, under its name with the suffix
/// behind it.
pub proof fn backups_stand_beside(directory: Seq<char>, name: Seq<char>, suffix: Seq<char>)
    requires
        directory.len() > 0,
        directory.last() != '/',
        directory.last() != '.',
        name.len() > 1,
        !name.contains('/'),
        name.last() != '.',
    ensures
        beside(directory.push('/') + name, suffix) == directory.push('/') + name + suffix,
{
    let path = directory.push('/') + name;
    let n = path.len() as int;
    assert(path.last() == name.last());
    assert(name.last() != '/') by {
        assert(name.contains(name.last()));
    }
    assert(trimmed_path(path) == path);
    lemma_name_start(directory, name);
    assert(path.skip(directory.len() as int + 1) =~= name);
    assert(file_name(path) == Some(name)) by {
        reveal_strlit(".");
        reveal_strlit("..");
        assert("."@.len() == 1);
        assert(".."@.last() == '.');
    }
    let front = path.take(directory.len() as int + 1);
    assert(front =~= directory.push('/'));
    assert(front.drop_last() =~= directory);
    reveal_with_fuel(trimmed_path, 3);
    assert(trimmed_path(front) == directory);
    reveal_strlit("/");
    assert(directory + "/"@ + (name + suffix) =~= directory.push('/') + name + suffix);
}

/// The name of a path begins behind its last slash.
proof fn lemma_name_start(directory: Seq<char>, name: Seq<char>)
    requires
        !name.contains('/'),
    ensures
        name_start(directory.push('/') + name) == directory.len() + 1,
    decreases name.len(),
{
    let path = directory.push('/') + name;
    if name.len() > 0 {
        assert(path.last() == name.last());
        assert(name.last() != '/') by {
            assert(name.contains(name.last()));
        }
        let front = name.drop_last();
        assert(!front.contains('/')) by {
            if front.contains('/') {
                let k = choose|k: int| 0 <= k < front.len() && front[k] == '/';
                assert(name[k] == '/');
            }
        }
        lemma_name_start(directory, front);
        assert(path.drop_last() =~= directory.push('/') + front);
    } else {
        assert(path =~= directory.push('/'));
        assert(path.last() == '/');
    }
}

} // verus!
