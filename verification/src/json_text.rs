//! JSON documents as the values they hold, and the `serde_json` crate behind
//! them.

use vstd::prelude::*;
use vstd::string::*;

use crate::document::{
    copy_path, field, field_path, item, item_path, root, root_path, same_path, step_views, Step,
    StepView,
};
use crate::text::same_text;
use crate::uuids::{hex_text, lemma_hex_digits, lower_hex};

verus! {

/// A value of a document.
#[derive(Debug, PartialEq, Eq)]
pub enum JsonValue {
    Null,
    Bool(bool),
    /// A number, and its value if that is an unsigned integer of 64 bits.
    Number(Option<u64>),
    Text(String),
    /// An array, and the number of its items.
    Array(usize),
    Object,
}

/// A value of a document, and the steps that lead to it.
#[derive(Debug, PartialEq, Eq)]
pub struct JsonNode {
    pub path: Vec<Step>,
    pub value: JsonValue,
}

/// The contents of a [`JsonValue`].
pub enum JsonView {
    Null,
    Bool(bool),
    Number(Option<u64>),
    Text(Seq<char>),
    Array(int),
    Object,
}

/// The contents of a [`JsonNode`].
pub struct NodeView {
    pub path: Seq<StepView>,
    pub value: JsonView,
}

impl View for JsonValue {
    type V = JsonView;

    open spec fn view(&self) -> JsonView {
        match self {
            JsonValue::Null => JsonView::Null,
            JsonValue::Bool(value) => JsonView::Bool(*value),
            JsonValue::Number(value) => JsonView::Number(*value),
            JsonValue::Text(text) => JsonView::Text(text@),
            JsonValue::Array(len) => JsonView::Array(*len as int),
            JsonValue::Object => JsonView::Object,
        }
    }
}

impl View for JsonNode {
    type V = NodeView;

    open spec fn view(&self) -> NodeView {
        NodeView { path: step_views(self.path@), value: self.value@ }
    }
}

/// The contents of each node.
pub open spec fn node_views(nodes: Seq<JsonNode>) -> Seq<NodeView> {
    nodes.map_values(|node: JsonNode| node@)
}

/// A value of a document with all that it holds.
#[derive(Debug, PartialEq, Eq)]
pub enum JsonTree {
    Null,
    Bool(bool),
    /// A number, and its value if that is an unsigned integer of 64 bits.
    Number(Option<u64>),
    Text(String),
    Array(Vec<JsonTree>),
    Object(Vec<JsonField>),
}

/// A named value of an object.
#[derive(Debug, PartialEq, Eq)]
pub struct JsonField {
    pub name: String,
    pub value: JsonTree,
}

/// What a value is, without what it holds.
pub open spec fn value_of(tree: JsonTree) -> JsonView {
    match tree {
        JsonTree::Null => JsonView::Null,
        JsonTree::Bool(value) => JsonView::Bool(value),
        JsonTree::Number(value) => JsonView::Number(value),
        JsonTree::Text(text) => JsonView::Text(text@),
        JsonTree::Array(items) => JsonView::Array(items@.len() as int),
        JsonTree::Object(_) => JsonView::Object,
    }
}

/// The values of a tree that stands at a path, each with its own path.
pub open spec fn nodes_of(tree: JsonTree, path: Seq<StepView>) -> Seq<NodeView>
    decreases tree,
{
    let here = seq![NodeView { path, value: value_of(tree) }];
    match tree {
        JsonTree::Array(items) => here + nodes_of_items(items@, path, items@.len()),
        JsonTree::Object(fields) => here + nodes_of_fields(fields@, path, fields@.len()),
        _ => here,
    }
}

/// The values of the first items of an array.
pub open spec fn nodes_of_items(items: Seq<JsonTree>, path: Seq<StepView>, count: nat) -> Seq<
    NodeView,
>
    decreases items, count,
{
    if count == 0 || count > items.len() {
        Seq::empty()
    } else {
        nodes_of_items(items, path, (count - 1) as nat) + nodes_of(
            items[count - 1],
            item(path, count - 1),
        )
    }
}

/// The values of the first fields of an object.
pub open spec fn nodes_of_fields(fields: Seq<JsonField>, path: Seq<StepView>, count: nat) -> Seq<
    NodeView,
>
    decreases fields, count,
{
    if count == 0 || count > fields.len() {
        Seq::empty()
    } else {
        nodes_of_fields(fields, path, (count - 1) as nat) + nodes_of(
            fields[count - 1].value,
            field(path, fields[count - 1].name@),
        )
    }
}

/// A value of the `serde_json` crate.
#[verifier::external_type_specification]
#[verifier::external_body]
pub struct ExValue(serde_json::Value);

/// The values that a value of the `serde_json` crate holds, each with its path.
pub uninterp spec fn held_nodes(value: serde_json::Value) -> Seq<NodeView>;

/// The values of a JSON document, each with its path, or why the bytes are no
/// document.
pub uninterp spec fn json_nodes(bytes: Seq<u8>) -> Result<Seq<NodeView>, Seq<char>>;

/// `serde_json::from_slice` reads a document into a value, or tells why the
/// bytes are none. What it reads depends on the bytes alone.
#[verifier::external_body]
fn read_value(bytes: &[u8]) -> (value: Result<serde_json::Value, String>)
    ensures
        match value {
            Ok(value) => json_nodes(bytes@) == Ok::<Seq<NodeView>, Seq<char>>(held_nodes(value)),
            Err(text) => json_nodes(bytes@) == Err::<Seq<NodeView>, Seq<char>>(text@),
        },
{
    serde_json::from_slice(bytes).map_err(|error| error.to_string())
}

/// A `serde_json::Value` as a tree of the same shape: each variant becomes the
/// one of its kind, and of a number only `Number::as_u64` is kept.
#[verifier::external_body]
fn tree_of(value: serde_json::Value) -> (tree: JsonTree)
    ensures
        nodes_of(tree, root()) == held_nodes(value),
{
    match value {
        serde_json::Value::Null => JsonTree::Null,
        serde_json::Value::Bool(value) => JsonTree::Bool(value),
        serde_json::Value::Number(number) => JsonTree::Number(number.as_u64()),
        serde_json::Value::String(text) => JsonTree::Text(text),
        serde_json::Value::Array(items) => JsonTree::Array(items.into_iter().map(tree_of).collect()),
        serde_json::Value::Object(fields) => JsonTree::Object(
            fields.into_iter().map(|(name, held)| JsonField { name, value: tree_of(held) }).collect(),
        ),
    }
}

/// Lists the values of a tree behind those that were listed.
pub fn list_nodes(tree: &JsonTree, path: Vec<Step>, nodes: &mut Vec<JsonNode>)
    ensures
        node_views(final(nodes)@) == node_views(old(nodes)@) + nodes_of(*tree, step_views(path@)),
    decreases tree,
{
    let ghost before = node_views(nodes@);
    let ghost at = step_views(path@);
    let value = match tree {
        JsonTree::Null => JsonValue::Null,
        JsonTree::Bool(value) => JsonValue::Bool(*value),
        JsonTree::Number(value) => JsonValue::Number(*value),
        JsonTree::Text(text) => JsonValue::Text(text.clone()),
        JsonTree::Array(items) => JsonValue::Array(items.len()),
        JsonTree::Object(_) => JsonValue::Object,
    };
    let node = JsonNode { path: copy_path(&path), value };
    let ghost here = seq![NodeView { path: at, value: value_of(*tree) }];
    nodes.push(node);
    assert(node_views(nodes@) =~= before + here);
    match tree {
        JsonTree::Array(items) => {
            let mut i: usize = 0;
            assert(before + here + nodes_of_items(items@, at, 0) =~= before + here);
            while i < items.len()
                invariant
                    i <= items@.len(),
                    *tree == JsonTree::Array(*items),
                    at == step_views(path@),
                    node_views(nodes@) == before + here + nodes_of_items(items@, at, i as nat),
                decreases items.len() - i,
            {
                assert(decreases_to!(*tree => tree->Array_0));
                assert(decreases_to!(*items => items[i as int]));
                list_nodes(&items[i], item_path(copy_path(&path), i), nodes);
                i += 1;
                assert(node_views(nodes@) =~= before + here + nodes_of_items(items@, at, i as nat));
            }
            assert(node_views(nodes@) =~= before + nodes_of(*tree, at));
        },
        JsonTree::Object(fields) => {
            let mut i: usize = 0;
            assert(before + here + nodes_of_fields(fields@, at, 0) =~= before + here);
            while i < fields.len()
                invariant
                    i <= fields@.len(),
                    *tree == JsonTree::Object(*fields),
                    at == step_views(path@),
                    node_views(nodes@) == before + here + nodes_of_fields(fields@, at, i as nat),
                decreases fields.len() - i,
            {
                let part = &fields[i];
                assert(decreases_to!(*tree => tree->Object_0));
                assert(decreases_to!(*fields => fields[i as int]));
                assert(decreases_to!(*part => part.value));
                list_nodes(&part.value, field_path(copy_path(&path), part.name.as_str()), nodes);
                i += 1;
                assert(node_views(nodes@) =~= before + here + nodes_of_fields(
                    fields@,
                    at,
                    i as nat,
                ));
            }
            assert(node_views(nodes@) =~= before + nodes_of(*tree, at));
        },
        _ => {},
    }
}

/// The values of a JSON document, each with its path.
pub fn parse_json(bytes: &[u8]) -> (nodes: Result<Vec<JsonNode>, String>)
    ensures
        match nodes {
            Ok(nodes) => json_nodes(bytes@) == Ok::<Seq<NodeView>, Seq<char>>(node_views(nodes@)),
            Err(text) => json_nodes(bytes@) == Err::<Seq<NodeView>, Seq<char>>(text@),
        },
{
    match read_value(bytes) {
        Ok(value) => {
            let tree = tree_of(value);
            let mut nodes: Vec<JsonNode> = Vec::new();
            assert(node_views(nodes@) =~= Seq::empty());
            list_nodes(&tree, root_path(), &mut nodes);
            assert(node_views(nodes@) =~= nodes_of(tree, root()));
            Ok(nodes)
        },
        Err(text) => Err(text),
    }
}

/// A character within a JSON string. Quotation marks, backslashes and control
/// characters are escaped.
pub open spec fn json_char(c: char) -> Seq<char> {
    if c == '"' {
        seq!['\\', '"']
    } else if c == '\\' {
        seq!['\\', '\\']
    } else if c == '\u{8}' {
        seq!['\\', 'b']
    } else if c == '\t' {
        seq!['\\', 't']
    } else if c == '\n' {
        seq!['\\', 'n']
    } else if c == '\u{c}' {
        seq!['\\', 'f']
    } else if c == '\r' {
        seq!['\\', 'r']
    } else if c <= '\u{1f}' {
        seq!['\\', 'u'] + hex_text(c as u32 as nat, 4)
    } else {
        seq![c]
    }
}

/// The characters of a text within a JSON string.
pub open spec fn json_chars(text: Seq<char>) -> Seq<char>
    decreases text.len(),
{
    if text.len() == 0 {
        Seq::empty()
    } else {
        json_chars(text.drop_last()) + json_char(text.last())
    }
}

/// A text as a JSON string, with its quotation marks.
pub open spec fn json_string(text: Seq<char>) -> Seq<char> {
    seq!['"'] + json_chars(text) + seq!['"']
}

/// `serde_json::to_string` writes a text as a JSON string.
#[verifier::external_body]
pub(crate) fn write_json_string(text: &str) -> (written: String)
    ensures
        written@ == json_string(text@),
{
    serde_json::to_string(text).expect("a text is a JSON value")
}

/// The characters of a text within a JSON string stay on one line.
proof fn lemma_json_chars(text: Seq<char>)
    ensures
        !json_chars(text).contains('\n'),
    decreases text.len(),
{
    if text.len() > 0 {
        lemma_json_chars(text.drop_last());
        let c = text.last();
        if c <= '\u{1f}' {
            lemma_hex_digits(c as u32 as nat, 4);
        }
        let last = json_char(c);
        assert forall|i: int| 0 <= i < last.len() implies last[i] != '\n' by {
            if c <= '\u{1f}' && i >= 2 && last.len() > 2 {
                assert(lower_hex(hex_text(c as u32 as nat, 4)[i - 2]));
            }
        }
        let front = json_chars(text.drop_last());
        assert forall|i: int| 0 <= i < (front + last).len() implies (front + last)[i] != '\n' by {
            if i < front.len() {
                assert(front.contains(front[i]));
            }
        }
    }
}

/// Whatever a text holds, it stays on one line as a JSON string.
pub proof fn json_strings_stay_on_one_line(text: Seq<char>)
    ensures
        !json_string(text).contains('\n'),
{
    lemma_json_chars(text);
    let all = json_string(text);
    let chars = json_chars(text);
    assert forall|i: int| 0 <= i < all.len() implies all[i] != '\n' by {
        if 0 < i < all.len() - 1 {
            assert(all[i] == chars[i - 1]);
            assert(chars.contains(chars[i - 1]));
        }
    }
}

/// The value at a path, if there is one.
pub open spec fn value_at(nodes: Seq<NodeView>, path: Seq<StepView>) -> Option<JsonView>
    decreases nodes.len(),
{
    if nodes.len() == 0 {
        None
    } else {
        match value_at(nodes.drop_last(), path) {
            Some(value) => Some(value),
            None => if nodes.last().path == path {
                Some(nodes.last().value)
            } else {
                None
            },
        }
    }
}

/// What is found among the first nodes is found among all.
proof fn lemma_value_stays(nodes: Seq<NodeView>, path: Seq<StepView>, k: int)
    requires
        0 <= k <= nodes.len(),
    ensures
        value_at(nodes.take(k), path) is Some ==> value_at(nodes, path) == value_at(
            nodes.take(k),
            path,
        ),
    decreases nodes.len(),
{
    if k < nodes.len() {
        assert(nodes.drop_last().take(k) =~= nodes.take(k));
        lemma_value_stays(nodes.drop_last(), path, k);
    } else {
        assert(nodes.take(k) =~= nodes);
    }
}

/// The value at `path`, if there is one.
pub fn find_value<'a>(nodes: &'a Vec<JsonNode>, path: &Vec<Step>) -> (value: Option<&'a JsonValue>)
    ensures
        match value {
            Some(value) => value_at(node_views(nodes@), step_views(path@)) == Some(value@),
            None => value_at(node_views(nodes@), step_views(path@)) is None,
        },
{
    let ghost all = node_views(nodes@);
    let mut i: usize = 0;
    while i < nodes.len()
        invariant
            i <= nodes@.len(),
            all == node_views(nodes@),
            value_at(all.take(i as int), step_views(path@)) is None,
        decreases nodes.len() - i,
    {
        proof {
            assert(all.take(i + 1).drop_last() =~= all.take(i as int));
            assert(all.take(i + 1).last() == nodes@[i as int]@);
            lemma_value_stays(all, step_views(path@), i + 1);
        }
        if same_path(&nodes[i].path, path) {
            return Some(&nodes[i].value);
        }
        i += 1;
    }
    assert(all.take(i as int) =~= all);
    None
}

/// The text at a path, if there is one.
pub open spec fn text_at(nodes: Seq<NodeView>, path: Seq<StepView>) -> Option<Seq<char>> {
    match value_at(nodes, path) {
        Some(JsonView::Text(text)) => Some(text),
        _ => None,
    }
}

/// The text at `path`, if there is one.
pub fn find_text(nodes: &Vec<JsonNode>, path: &Vec<Step>) -> (text: Option<String>)
    ensures
        match text {
            Some(text) => text_at(node_views(nodes@), step_views(path@)) == Some(text@),
            None => text_at(node_views(nodes@), step_views(path@)) is None,
        },
{
    match find_value(nodes, path) {
        Some(JsonValue::Text(text)) => Some(text.clone()),
        _ => None,
    }
}

/// Whether the text `text` is at `path`.
pub fn is_text_at(nodes: &Vec<JsonNode>, path: &Vec<Step>, text: &str) -> (r: bool)
    ensures
        r == (text_at(node_views(nodes@), step_views(path@)) == Some(text@)),
{
    match find_value(nodes, path) {
        Some(JsonValue::Text(found)) => same_text(found.as_str(), text),
        _ => false,
    }
}

/// Whether there is a value at `path`.
pub fn has_value(nodes: &Vec<JsonNode>, path: &Vec<Step>) -> (r: bool)
    ensures
        r == (value_at(node_views(nodes@), step_views(path@)) is Some),
{
    find_value(nodes, path).is_some()
}

} // verus!
