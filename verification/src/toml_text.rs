//! TOML documents as the scalars they hold, and the `toml` crate behind them.

use vstd::prelude::*;
use vstd::string::*;

use crate::document::{
    copy_path, field, field_path, item, item_path, root, root_path, step_views, Step, StepView,
};
use crate::text::same_text;

verus! {

/// A value that holds no other values.
#[derive(Debug, PartialEq, Eq)]
pub enum TomlScalar {
    Text(String),
    Integer(i64),
    /// A float, a boolean or a date.
    Other,
}

/// A scalar of a document, and the steps that lead to it.
#[derive(Debug, PartialEq, Eq)]
pub struct TomlLeaf {
    pub path: Vec<Step>,
    pub value: TomlScalar,
}

/// The contents of a [`TomlScalar`].
pub enum ScalarView {
    Text(Seq<char>),
    Integer(int),
    Other,
}

/// The contents of a [`TomlLeaf`].
pub struct LeafView {
    pub path: Seq<StepView>,
    pub value: ScalarView,
}

impl View for TomlScalar {
    type V = ScalarView;

    open spec fn view(&self) -> ScalarView {
        match self {
            TomlScalar::Text(text) => ScalarView::Text(text@),
            TomlScalar::Integer(number) => ScalarView::Integer(*number as int),
            TomlScalar::Other => ScalarView::Other,
        }
    }
}

impl View for TomlLeaf {
    type V = LeafView;

    open spec fn view(&self) -> LeafView {
        LeafView { path: step_views(self.path@), value: self.value@ }
    }
}

/// The contents of each leaf.
pub open spec fn leaf_views(leaves: Seq<TomlLeaf>) -> Seq<LeafView> {
    leaves.map_values(|leaf: TomlLeaf| leaf@)
}

/// A value of a document with all that it holds.
#[derive(Debug, PartialEq, Eq)]
pub enum TomlTree {
    Text(String),
    Integer(i64),
    /// A float, a boolean or a date.
    Other,
    Array(Vec<TomlTree>),
    Table(Vec<TomlField>),
}

/// A named value of a table.
#[derive(Debug, PartialEq, Eq)]
pub struct TomlField {
    pub name: String,
    pub value: TomlTree,
}

/// The scalars of a tree that stands at a path, each with its own path.
pub open spec fn leaves_of(tree: TomlTree, path: Seq<StepView>) -> Seq<LeafView>
    decreases tree,
{
    match tree {
        TomlTree::Text(text) => seq![LeafView { path, value: ScalarView::Text(text@) }],
        TomlTree::Integer(number) => seq![LeafView { path, value: ScalarView::Integer(number as int) }],
        TomlTree::Other => seq![LeafView { path, value: ScalarView::Other }],
        TomlTree::Array(items) => leaves_of_items(items@, path, items@.len()),
        TomlTree::Table(fields) => leaves_of_fields(fields@, path, fields@.len()),
    }
}

/// The scalars of the first items of an array.
pub open spec fn leaves_of_items(items: Seq<TomlTree>, path: Seq<StepView>, count: nat) -> Seq<
    LeafView,
>
    decreases items, count,
{
    if count == 0 || count > items.len() {
        Seq::empty()
    } else {
        leaves_of_items(items, path, (count - 1) as nat) + leaves_of(
            items[count - 1],
            item(path, count - 1),
        )
    }
}

/// The scalars of the first fields of a table.
pub open spec fn leaves_of_fields(fields: Seq<TomlField>, path: Seq<StepView>, count: nat) -> Seq<
    LeafView,
>
    decreases fields, count,
{
    if count == 0 || count > fields.len() {
        Seq::empty()
    } else {
        leaves_of_fields(fields, path, (count - 1) as nat) + leaves_of(
            fields[count - 1].value,
            field(path, fields[count - 1].name@),
        )
    }
}

/// A value of the `toml` crate.
#[verifier::external_type_specification]
#[verifier::external_body]
pub struct ExValue(toml::Value);

/// The scalars that a value of the `toml` crate holds, each with its path.
pub uninterp spec fn held_leaves(value: toml::Value) -> Seq<LeafView>;

/// The scalars of a TOML document, or why the text is no document.
pub uninterp spec fn toml_leaves(text: Seq<char>) -> Result<Seq<LeafView>, Seq<char>>;

/// A name that needs no quotation marks where it is a key.
pub open spec fn bare_key(name: Seq<char>) -> bool {
    &&& name.len() > 0
    &&& forall|i: int|
        0 <= i < name.len() ==> {
            let c = #[trigger] name[i];
            'a' <= c <= 'z' || 'A' <= c <= 'Z' || '0' <= c <= '9' || c == '_' || c == '-'
        }
}

/// A text that stands between quotation marks as it is.
pub open spec fn plain_string(text: Seq<char>) -> bool {
    forall|i: int|
        0 <= i < text.len() ==> ' ' <= #[trigger] text[i] <= '~' && text[i] != '"' && text[i]
            != '\\'
}

/// The lines of named texts.
pub open spec fn field_lines(fields: Seq<(Seq<char>, Seq<char>)>) -> Seq<char>
    decreases fields.len(),
{
    if fields.len() == 0 {
        Seq::empty()
    } else {
        field_lines(fields.drop_last()) + fields.last().0 + seq![' ', '=', ' ', '"']
            + fields.last().1 + seq!['"', '\n']
    }
}

/// A section for one more table of the array `inner` in the table `outer`.
pub struct Section {
    pub outer: Seq<char>,
    pub inner: Seq<char>,
    pub fields: Seq<(Seq<char>, Seq<char>)>,
}

impl Section {
    /// Nothing in the section needs to be quoted otherwise than it is.
    pub open spec fn plain(self) -> bool {
        &&& bare_key(self.outer)
        &&& bare_key(self.inner)
        &&& forall|i: int|
            0 <= i < self.fields.len() ==> bare_key((#[trigger] self.fields[i]).0) && plain_string(
                self.fields[i].1,
            )
    }

    /// The text of the section.
    pub open spec fn text(self) -> Seq<char> {
        seq!['[', '['] + self.outer + seq!['.'] + self.inner + seq![']', ']', '\n'] + field_lines(
            self.fields,
        )
    }

    /// The scalars of the section as the table at `at` of its array.
    pub open spec fn leaves(self, at: int) -> Seq<LeafView> {
        self.fields.map_values(
            |named: (Seq<char>, Seq<char>)|
                LeafView {
                    path: seq![
                        StepView::Key(self.outer),
                        StepView::Key(self.inner),
                        StepView::Item(at),
                        StepView::Key(named.0),
                    ],
                    value: ScalarView::Text(named.1),
                },
        )
    }

    /// A scalar or an array stands in place of the outer table or of the whole
    /// document.
    pub open spec fn displaced(self, leaves: Seq<LeafView>) -> bool {
        exists|i: int|
            0 <= i < leaves.len() && {
                let path = (#[trigger] leaves[i]).path;
                ||| path.len() == 0
                ||| path[0] == StepView::Key(self.outer) && (path.len() == 1 || path[1] is Item)
            }
    }
}

/// A document holds what another one holds and some scalars more.
pub open spec fn holds_too(merged: Seq<LeafView>, found: Seq<LeafView>, more: Seq<LeafView>) -> bool {
    forall|leaf: LeafView| #[trigger]
        merged.contains(leaf) <==> found.contains(leaf) || more.contains(leaf)
}

/// A text that holds nothing: blanks, tabs and line ends.
pub open spec fn empty_document(text: Seq<char>) -> bool {
    forall|i: int|
        0 <= i < text.len() ==> {
            ||| #[trigger] text[i] == ' '
            ||| text[i] == '\t'
            ||| text[i] == '\n'
            ||| text[i] == '\r' && i + 1 < text.len() && text[i + 1] == '\n'
        }
}

/// The text is a document that holds the scalars `found`.
pub open spec fn is_document(text: Seq<char>, found: Seq<LeafView>) -> bool {
    toml_leaves(text) == Ok::<Seq<LeafView>, Seq<char>>(found) || (empty_document(text) && found
        == Seq::<LeafView>::empty())
}

/// Line feeds that end whatever stands before them.
pub open spec fn line_breaks(source: Seq<char>, gap: Seq<char>) -> bool {
    &&& forall|i: int| 0 <= i < gap.len() ==> #[trigger] gap[i] == '\n'
    &&& source.len() > 0 ==> gap.len() > 0
}

/// A document with a section behind it, each on lines of its own.
pub open spec fn with_section(source: Seq<char>, gap: Seq<char>, section: Section) -> Seq<char> {
    source + gap + section.text()
}

/// What a section behind a document adds: one table to its array, unless
/// something else stands in place of the outer table. (Where that is an array
/// of tables, the section goes to the last of them.)
pub open spec fn section_added(merged: Seq<LeafView>, found: Seq<LeafView>, section: Section) -> bool {
    section.displaced(merged) || exists|at: int|
        holds_too(merged, found, #[trigger] section.leaves(at))
}

/// `toml::from_str` reads a document into a value, or tells why the text is
/// none. What it reads depends on the text alone. A document behind which a
/// section for one more table of an array is written, on lines of its own, holds
/// what it held and that table, if it is still a document and the outer table
/// is a table.
#[verifier::external_body]
fn read_value(text: &str) -> (value: Result<toml::Value, String>)
    ensures
        match value {
            Ok(value) => toml_leaves(text@) == Ok::<Seq<LeafView>, Seq<char>>(held_leaves(value)),
            Err(reason) => toml_leaves(text@) == Err::<Seq<LeafView>, Seq<char>>(reason@),
        },
        value is Ok ==> forall|source: Seq<char>, gap: Seq<char>, section: Section, found: Seq<
            LeafView,
        >|
            text@ == #[trigger] with_section(source, gap, section) && line_breaks(source, gap)
                && section.plain() && #[trigger] is_document(source, found) ==> section_added(
                held_leaves(value->Ok_0),
                found,
                section,
            ),
{
    toml::from_str(text).map_err(|error: toml::de::Error| error.to_string())
}

/// A `toml::Value` as a tree of the same shape: each variant becomes the one of
/// its kind, and of a float, a boolean or a date only that it is there is kept.
#[verifier::external_body]
fn tree_of(value: toml::Value) -> (tree: TomlTree)
    ensures
        leaves_of(tree, root()) == held_leaves(value),
{
    match value {
        toml::Value::String(text) => TomlTree::Text(text),
        toml::Value::Integer(number) => TomlTree::Integer(number),
        toml::Value::Float(_) => TomlTree::Other,
        toml::Value::Boolean(_) => TomlTree::Other,
        toml::Value::Datetime(_) => TomlTree::Other,
        toml::Value::Array(items) => TomlTree::Array(items.into_iter().map(tree_of).collect()),
        toml::Value::Table(fields) => TomlTree::Table(
            fields.into_iter().map(|(name, held)| TomlField { name, value: tree_of(held) }).collect(),
        ),
    }
}

/// Lists one scalar behind those that were listed.
fn push_leaf(path: Vec<Step>, value: TomlScalar, leaves: &mut Vec<TomlLeaf>)
    ensures
        leaf_views(final(leaves)@) == leaf_views(old(leaves)@).push(
            LeafView { path: step_views(path@), value: value@ },
        ),
{
    let ghost before = leaves@;
    let leaf = TomlLeaf { path, value };
    let ghost shown = leaf@;
    leaves.push(leaf);
    assert(leaf_views(leaves@) =~= leaf_views(before).push(shown));
}

/// Lists the scalars of a tree behind those that were listed.
pub fn list_leaves(tree: &TomlTree, path: Vec<Step>, leaves: &mut Vec<TomlLeaf>)
    ensures
        leaf_views(final(leaves)@) == leaf_views(old(leaves)@) + leaves_of(
            *tree,
            step_views(path@),
        ),
    decreases tree,
{
    let ghost before = leaf_views(leaves@);
    let ghost at = step_views(path@);
    match tree {
        TomlTree::Text(text) => push_leaf(path, TomlScalar::Text(text.clone()), leaves),
        TomlTree::Integer(number) => push_leaf(path, TomlScalar::Integer(*number), leaves),
        TomlTree::Other => push_leaf(path, TomlScalar::Other, leaves),
        TomlTree::Array(items) => {
            let mut i: usize = 0;
            assert(before + leaves_of_items(items@, at, 0) =~= before);
            while i < items.len()
                invariant
                    i <= items@.len(),
                    *tree == TomlTree::Array(*items),
                    at == step_views(path@),
                    leaf_views(leaves@) == before + leaves_of_items(items@, at, i as nat),
                decreases items.len() - i,
            {
                assert(decreases_to!(*tree => tree->Array_0));
                assert(decreases_to!(*items => items[i as int]));
                list_leaves(&items[i], item_path(copy_path(&path), i), leaves);
                i += 1;
                assert(leaf_views(leaves@) =~= before + leaves_of_items(items@, at, i as nat));
            }
        },
        TomlTree::Table(fields) => {
            let mut i: usize = 0;
            assert(before + leaves_of_fields(fields@, at, 0) =~= before);
            while i < fields.len()
                invariant
                    i <= fields@.len(),
                    *tree == TomlTree::Table(*fields),
                    at == step_views(path@),
                    leaf_views(leaves@) == before + leaves_of_fields(fields@, at, i as nat),
                decreases fields.len() - i,
            {
                let part = &fields[i];
                assert(decreases_to!(*tree => tree->Table_0));
                assert(decreases_to!(*fields => fields[i as int]));
                assert(decreases_to!(*part => part.value));
                list_leaves(&part.value, field_path(copy_path(&path), part.name.as_str()), leaves);
                i += 1;
                assert(leaf_views(leaves@) =~= before + leaves_of_fields(fields@, at, i as nat));
            }
        },
    }
}

/// The scalars of a TOML document, each with its path.
pub fn parse_toml(text: &str) -> (leaves: Result<Vec<TomlLeaf>, String>)
    ensures
        match leaves {
            Ok(leaves) => toml_leaves(text@) == Ok::<Seq<LeafView>, Seq<char>>(leaf_views(leaves@)),
            Err(reason) => toml_leaves(text@) == Err::<Seq<LeafView>, Seq<char>>(reason@),
        },
        leaves is Ok ==> forall|source: Seq<char>, gap: Seq<char>, section: Section, found: Seq<
            LeafView,
        >|
            text@ == #[trigger] with_section(source, gap, section) && line_breaks(source, gap)
                && section.plain() && #[trigger] is_document(source, found) ==> section_added(
                leaf_views(leaves->Ok_0@),
                found,
                section,
            ),
{
    match read_value(text) {
        Ok(value) => {
            let tree = tree_of(value);
            let mut leaves: Vec<TomlLeaf> = Vec::new();
            assert(leaf_views(leaves@) =~= Seq::empty());
            list_leaves(&tree, root_path(), &mut leaves);
            assert(leaf_views(leaves@) =~= leaves_of(tree, root()));
            Ok(leaves)
        },
        Err(reason) => Err(reason),
    }
}

/// Whether a scalar is the text `text`.
pub fn is_text(value: &TomlScalar, text: &str) -> (r: bool)
    ensures
        r == (value@ == ScalarView::Text(text@)),
{
    match value {
        TomlScalar::Text(found) => same_text(found.as_str(), text),
        _ => false,
    }
}

} // verus!
