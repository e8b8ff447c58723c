//! The document: a TOML file held so that whatever is left alone keeps its
//! formatting. The parsing, the tree and the printing are `toml_edit`'s; this
//! file states what the library relies on.

use vstd::prelude::*;
use crate::scalar::{Scalar, ScalarView};

verus! {

#[verifier::external_type_specification]
#[verifier::external_body]
pub struct ExDocumentMut(toml_edit::DocumentMut);

#[verifier::external_type_specification]
#[verifier::external_body]
pub struct ExItem(toml_edit::Item);

#[verifier::external_type_specification]
#[verifier::external_body]
pub struct ExTomlError(toml_edit::TomlError);

#[verifier::external_type_specification]
#[verifier::external_body]
pub struct ExDecor(toml_edit::Decor);

/// What a path of a document leads to.
#[derive(Debug, PartialEq, Eq)]
pub enum Occupant {
    /// A table with a header of its own.
    Table,
    /// A table written inline, between braces.
    InlineTable,
    /// A string, integer, float, boolean or array of such.
    Scalar(Scalar),
    /// Anything else: a date, an array of tables, an array that holds either.
    Other,
}

/// The mathematical value of an [`Occupant`].
pub enum OccupantView {
    Table,
    InlineTable,
    Scalar(ScalarView),
    Other,
}

impl View for Occupant {
    type V = OccupantView;

    open spec fn view(&self) -> OccupantView {
        match self {
            Occupant::Table => OccupantView::Table,
            Occupant::InlineTable => OccupantView::InlineTable,
            Occupant::Scalar(s) => OccupantView::Scalar(s@),
            Occupant::Other => OccupantView::Other,
        }
    }
}

/// The spacing and comment around a value: what is written before it and
/// what behind it, or nothing where none is set and the printer chooses.
pub struct DecorView {
    pub before: Option<Seq<char>>,
    pub after: Option<Seq<char>>,
}

/// The decor of a value that was given none.
pub open spec fn plain() -> DecorView {
    DecorView { before: None, after: None }
}

/// What stands at a path: what it is and, where it is a value, the decor
/// around it.
pub struct SlotView {
    pub what: OccupantView,
    pub decor: Option<DecorView>,
}

impl SlotView {
    /// Whether keys can be looked up in it.
    pub open spec fn holds_keys(self) -> bool {
        self.what is Table || self.what is InlineTable
    }
}

/// A document as a tree, for showing it.
#[derive(Debug, PartialEq, Eq)]
pub enum Node {
    /// A value: its own text, without the spacing and comment around it.
    Value { text: String },
    /// A table with a header of its own, with its entries in order.
    Table(Vec<Entry>),
    /// An array of tables.
    ArrayOfTables,
}

/// A key of a table with what stands under it.
#[derive(Debug, PartialEq, Eq)]
pub struct Entry {
    pub key: String,
    pub node: Node,
}

/// The mathematical value of a [`Node`].
pub enum NodeView {
    Value { text: Seq<char> },
    Table(Seq<EntryView>),
    ArrayOfTables,
}

/// The mathematical value of an [`Entry`].
pub struct EntryView {
    pub key: Seq<char>,
    pub node: NodeView,
}

/// The tree that `node` stands for.
pub open spec fn node_view(node: Node) -> NodeView
    decreases node,
{
    match node {
        Node::Value { text } => NodeView::Value { text: text@ },
        Node::Table(entries) => NodeView::Table(entry_views(entries@)),
        Node::ArrayOfTables => NodeView::ArrayOfTables,
    }
}

/// The entries that `entries` stand for, in order.
pub open spec fn entry_views(entries: Seq<Entry>) -> Seq<EntryView>
    decreases entries,
{
    Seq::new(
        entries.len(),
        |i: int|
            if 0 <= i < entries.len() {
                EntryView { key: entries[i].key@, node: node_view(entries[i].node) }
            } else {
                EntryView { key: Seq::empty(), node: NodeView::ArrayOfTables }
            },
    )
}

/// What a document holds, as far as edits are concerned: each path of keys
/// that leads somewhere, with what it leads to.
pub type Slots = Map<Seq<Seq<char>>, SlotView>;

/// The path of no keys.
pub open spec fn here() -> Seq<Seq<char>> {
    Seq::empty()
}

/// The slots of an item: every path of keys from the item that leads,
/// through tables and inline tables only, to an item that is not none, with
/// what stands there and, where that is a value, the value's decor. The
/// empty path leads to the item itself.
pub uninterp spec fn item_slots(item: toml_edit::Item) -> Slots;

/// A decor as texts.
pub uninterp spec fn decor_view(decor: toml_edit::Decor) -> DecorView;

/// The slots of a document's root item.
pub uninterp spec fn doc_slots(doc: toml_edit::DocumentMut) -> Slots;

/// The text that a document prints as.
pub uninterp spec fn doc_text(doc: toml_edit::DocumentMut) -> Seq<char>;

/// The entries of a document's root table, in the order of the document.
pub uninterp spec fn doc_entries(doc: toml_edit::DocumentMut) -> Seq<EntryView>;

/// An item as a tree: nothing for an item that is none, else what it is, a
/// table with its entries in order, each entry as a tree again. Entries that
/// are none are left out. A value comes with the text it prints as once the
/// spacing and comment around it are taken off.
pub uninterp spec fn item_tree(item: toml_edit::Item) -> Option<NodeView>;

/// What a document is, as far as this library looks at it.
pub struct Parsed {
    pub slots: Slots,
    pub text: Seq<char>,
    pub entries: Seq<EntryView>,
}

/// What the parser makes of a text, or nothing where the text is not valid
/// TOML.
pub uninterp spec fn parsed(text: Seq<char>) -> Option<Parsed>;

/// What `doc` is, as far as this library looks at it.
pub open spec fn seen(doc: toml_edit::DocumentMut) -> Parsed {
    Parsed { slots: doc_slots(doc), text: doc_text(doc), entries: doc_entries(doc) }
}

/// The part of `m` under `key`, seen from there.
pub open spec fn below(m: Slots, key: Seq<char>) -> Slots {
    Map::new(|p: Seq<Seq<char>>| m.contains_key(seq![key] + p), |p: Seq<Seq<char>>| m[seq![key] + p])
}

/// `m` with the part under `key` replaced by `c`. The item itself is a table
/// afterwards: the one it was, or a new inline table where there was none.
pub open spec fn above(m: Slots, key: Seq<char>, c: Slots) -> Slots {
    Map::new(
        |p: Seq<Seq<char>>|
            if p.len() == 0 {
                true
            } else if p[0] == key {
                c.contains_key(p.skip(1))
            } else {
                m.contains_key(p)
            },
        |p: Seq<Seq<char>>|
            if p.len() == 0 {
                if m.contains_key(here()) {
                    m[here()]
                } else {
                    fresh_table()
                }
            } else if p[0] == key {
                c[p.skip(1)]
            } else {
                m[p]
            },
    )
}

/// The inline table that is made where a path needs a table and there is
/// nothing: it has no decor of its own.
pub open spec fn fresh_table() -> SlotView {
    SlotView { what: OccupantView::InlineTable, decor: Some(plain()) }
}

/// An item that keys can be looked up in, or none, which becomes one.
pub open spec fn open_to_keys(m: Slots) -> bool {
    m.contains_key(here()) ==> m[here()].holds_keys()
}

/// The slots of an item that is the one value `s` with the decor `d`.
pub open spec fn lone(s: ScalarView, d: DecorView) -> Slots {
    Map::empty().insert(here(), SlotView { what: OccupantView::Scalar(s), decor: Some(d) })
}

/// `toml_edit::DocumentMut::from_str`: the document that a text parses to.
/// The slots of a parsed document are sound; which texts parse, and to what,
/// is left to the parser and only named.
#[verifier::external_body]
pub(crate) fn parse_toml(text: &str) -> (r: Result<toml_edit::DocumentMut, toml_edit::TomlError>)
    ensures
        match r {
            Ok(doc) => parsed(text@) == Some(seen(doc)) && sound(doc_slots(doc)),
            Err(_) => parsed(text@) is None,
        },
{
    text.parse::<toml_edit::DocumentMut>()
}

/// `Display` of `toml_edit::TomlError`: the parser's message.
#[verifier::external_body]
pub(crate) fn toml_error_message(error: &toml_edit::TomlError) -> (message: String)
{
    error.to_string()
}

/// `Display` of `toml_edit::DocumentMut`: the document as text. It panics
/// where the root is no table, which `requires` leaves out.
#[verifier::external_body]
pub(crate) fn print_toml(doc: &toml_edit::DocumentMut) -> (text: String)
    requires
        doc_slots(*doc).contains_key(here()),
        doc_slots(*doc)[here()].what == OccupantView::Table,
    ensures
        text@ == doc_text(*doc),
{
    doc.to_string()
}

/// `Clone` of `toml_edit::DocumentMut`: a copy holds and prints the same.
#[verifier::external_body]
pub(crate) fn copy_toml(doc: &toml_edit::DocumentMut) -> (copy: toml_edit::DocumentMut)
    ensures
        seen(copy) == seen(*doc),
{
    doc.clone()
}

/// `toml_edit::DocumentMut::as_item`: the root item, for reading. Of a
/// document whose root is a table it is that table.
#[verifier::external_body]
pub(crate) fn root_item<'a>(doc: &'a toml_edit::DocumentMut) -> (root: &'a toml_edit::Item)
    requires
        sound(doc_slots(*doc)),
    ensures
        item_tree(*root) == Some(NodeView::Table(doc_entries(*doc))),
{
    doc.as_item()
}

/// Converts a `toml_edit::Item` to a [`Node`], variant by variant; the
/// entries of a table come from `toml_edit::Table::iter`, the text of a
/// value from `Display` of a copy that `Value::decorated` gave empty decor.
#[verifier::external_body]
pub(crate) fn item_node(item: &toml_edit::Item) -> (r: Option<Node>)
    ensures
        match r {
            Some(node) => item_tree(*item) == Some(node_view(node)),
            None => item_tree(*item) is None,
        },
{
    match item {
        toml_edit::Item::None => None,
        toml_edit::Item::Value(v) => Some(Node::Value { text: v.clone().decorated("", "").to_string() }),
        toml_edit::Item::Table(t) => Some(
            Node::Table(t.iter().filter_map(|(k, i)| Some(Entry { key: k.to_owned(), node: item_node(i)? })).collect()),
        ),
        toml_edit::Item::ArrayOfTables(_) => Some(Node::ArrayOfTables),
    }
}

/// `toml_edit::DocumentMut::as_item_mut`: the root item, for writing.
#[verifier::external_body]
pub(crate) fn root_mut<'a>(doc: &'a mut toml_edit::DocumentMut) -> (root: &'a mut toml_edit::Item)
    ensures
        item_slots(*root) == doc_slots(*old(doc)),
        doc_slots(*final(doc)) == item_slots(*final(root)),
{
    doc.as_item_mut()
}

/// `IndexMut<&str>` of `toml_edit::Item`: the item under `key`, for writing.
/// On a table or an inline table it is the entry of that key, made as none
/// where the key is new; an item that is none first becomes an inline table.
/// On anything else the index panics, which `requires` leaves out.
#[verifier::external_body]
pub(crate) fn child_mut<'a>(item: &'a mut toml_edit::Item, key: &str) -> (child: &'a mut toml_edit::Item)
    requires
        open_to_keys(item_slots(*old(item))),
    ensures
        item_slots(*child) == below(item_slots(*old(item)), key@),
        item_slots(*final(item)) == above(item_slots(*old(item)), key@, item_slots(*final(child))),
{
    &mut item[key]
}

/// The kinds of item.
#[derive(Debug, Clone, Copy, PartialEq, Eq, Structural)]
pub enum ItemKind {
    Nothing,
    Value,
    Table,
    ArrayOfTables,
}

/// What stands where the value `value` stands: a scalar, an inline table or
/// something else, with the value's decor.
pub open spec fn value_slot(value: toml_edit::Value) -> SlotView {
    SlotView {
        what: match crate::scalar::value_scalar(value) {
            Some(s) => OccupantView::Scalar(s),
            None => if crate::scalar::value_inline(value) {
                OccupantView::InlineTable
            } else {
                OccupantView::Other
            },
        },
        decor: Some(crate::scalar::value_decor(value)),
    }
}

/// Tells the variants of `toml_edit::Item` apart. Only a value has a decor;
/// an array of tables holds no keys.
#[verifier::external_body]
pub(crate) fn kind_of(item: &toml_edit::Item) -> (kind: ItemKind)
    ensures
        match kind {
            ItemKind::Nothing => !item_slots(*item).contains_key(here()),
            ItemKind::Value => item_slots(*item).contains_key(here()) && item_slots(*item)[here()].decor is Some,
            ItemKind::Table => item_slots(*item).contains_key(here()) && item_slots(*item)[here()] == (SlotView {
                what: OccupantView::Table,
                decor: None,
            }),
            ItemKind::ArrayOfTables => item_slots(*item).contains_key(here()) && item_slots(*item)[here()] == (
            SlotView { what: OccupantView::Other, decor: None }),
        },
{
    match item {
        toml_edit::Item::None => ItemKind::Nothing,
        toml_edit::Item::Value(_) => ItemKind::Value,
        toml_edit::Item::Table(_) => ItemKind::Table,
        toml_edit::Item::ArrayOfTables(_) => ItemKind::ArrayOfTables,
    }
}

/// `toml_edit::Item::as_value`: the value that the item is, or nothing where
/// it is no value.
#[verifier::external_body]
pub(crate) fn value_of<'a>(item: &'a toml_edit::Item) -> (r: Option<&'a toml_edit::Value>)
    ensures
        match r {
            Some(value) => item_slots(*item).contains_key(here()) && item_slots(*item)[here()] == value_slot(
                *value,
            ),
            None => !item_slots(*item).contains_key(here()) || item_slots(*item)[here()].decor is None,
        },
{
    item.as_value()
}

/// `toml_edit::Value::is_inline_table`: whether the value is an inline
/// table.
#[verifier::external_body]
pub(crate) fn is_inline_table(value: &toml_edit::Value) -> (r: bool)
    ensures
        r == crate::scalar::value_inline(*value),
{
    value.is_inline_table()
}

/// `toml_edit::Value::decor`: a copy of the decor of a value.
#[verifier::external_body]
pub(crate) fn decor_copy(value: &toml_edit::Value) -> (decor: toml_edit::Decor)
    ensures
        decor_view(decor) == crate::scalar::value_decor(*value),
{
    value.decor().clone()
}

/// What the item is, or nothing where it is none.
pub(crate) fn occupant(item: &toml_edit::Item) -> (r: Option<Occupant>)
    ensures
        match r {
            Some(o) => item_slots(*item).contains_key(here()) && item_slots(*item)[here()].what == o@,
            None => !item_slots(*item).contains_key(here()),
        },
{
    match kind_of(item) {
        ItemKind::Nothing => None,
        ItemKind::Table => Some(Occupant::Table),
        ItemKind::ArrayOfTables => Some(Occupant::Other),
        ItemKind::Value => match value_of(item) {
            Some(value) => match crate::scalar::read_value(value) {
                Some(scalar) => Some(Occupant::Scalar(scalar)),
                None => if is_inline_table(value) {
                    Some(Occupant::InlineTable)
                } else {
                    Some(Occupant::Other)
                },
            },
            None => unreached(),
        },
    }
}

/// The decor of the value that the item is, or the plain one where it is
/// no value.
pub(crate) fn decor_of(item: &toml_edit::Item) -> (decor: toml_edit::Decor)
    ensures
        decor_view(decor) == if item_slots(*item).contains_key(here()) && item_slots(*item)[here()].decor
            is Some {
            item_slots(*item)[here()].decor->0
        } else {
            plain()
        },
{
    match value_of(item) {
        Some(value) => decor_copy(value),
        None => plain_decor(),
    }
}

/// `Default` of `toml_edit::Decor`: the decor with nothing set.
#[verifier::external_body]
pub(crate) fn plain_decor() -> (decor: toml_edit::Decor)
    ensures
        decor_view(decor) == plain(),
{
    toml_edit::Decor::default()
}

/// `toml_edit::Value::decor_mut`: the same value with `decor` around it.
#[verifier::external_body]
pub(crate) fn with_decor(value: toml_edit::Value, decor: toml_edit::Decor) -> (decorated: toml_edit::Value)
    ensures
        crate::scalar::value_scalar(decorated) == crate::scalar::value_scalar(value),
        crate::scalar::value_decor(decorated) == decor_view(decor),
{
    let mut decorated = value;
    *decorated.decor_mut() = decor;
    decorated
}

/// Assignment of `toml_edit::Item::Value`: the item becomes the value, with
/// the value's decor, and nothing else.
#[verifier::external_body]
pub(crate) fn put_value(slot: &mut toml_edit::Item, value: toml_edit::Value)
    ensures
        crate::scalar::value_scalar(value) matches Some(s) ==> item_slots(*final(slot)) == lone(
            s,
            crate::scalar::value_decor(value),
        ),
{
    *slot = toml_edit::Item::Value(value);
}

/// What holds of the slots of every document: the root is a table, a path
/// leads somewhere only through tables, and a scalar has a decor.
pub open spec fn sound(m: Slots) -> bool {
    &&& m.contains_key(here())
    &&& m[here()].what == OccupantView::Table
    &&& forall|q: Seq<Seq<char>>, k: int|
        m.contains_key(q) && 0 <= k < q.len() ==> m.contains_key(#[trigger] q.take(k)) && m[q.take(k)].holds_keys()
    &&& forall|q: Seq<Seq<char>>| #[trigger] m.contains_key(q) && m[q].what is Scalar ==> m[q].decor is Some
}

/// A configuration document.
#[derive(Debug)]
pub struct Document {
    pub(crate) doc: toml_edit::DocumentMut,
}

impl Document {
    /// What the document holds: each path of keys with what it leads to.
    pub open(crate) spec fn slots(&self) -> Slots {
        doc_slots(self.doc)
    }

    /// The text that the document prints as.
    pub open(crate) spec fn text(&self) -> Seq<char> {
        doc_text(self.doc)
    }

    /// The entries of the root table, in the order of the document.
    pub open(crate) spec fn entries(&self) -> Seq<EntryView> {
        doc_entries(self.doc)
    }

    /// The document as the parser sees it.
    pub open spec fn seen(&self) -> Parsed {
        Parsed { slots: self.slots(), text: self.text(), entries: self.entries() }
    }

    #[verifier::type_invariant]
    pub open(crate) spec fn well_formed(&self) -> bool {
        sound(doc_slots(self.doc))
    }

    /// Reads a document from its text.
    pub fn parse(text: &str) -> (r: Result<Document, ParseError>)
        ensures
            match r {
                Ok(document) => parsed(text@) == Some(document.seen()),
                Err(_) => parsed(text@) is None,
            },
    {
        match parse_toml(text) {
            Ok(doc) => Ok(Document { doc }),
            Err(error) => Err(ParseError { message: toml_error_message(&error) }),
        }
    }

    /// The document as text.
    pub fn to_text(&self) -> (text: String)
        ensures
            text@ == self.text(),
    {
        proof {
            use_type_invariant(self);
        }
        print_toml(&self.doc)
    }

    /// The entries of the root table as a tree, in the order of the
    /// document.
    pub fn tree(&self) -> (entries: Vec<Entry>)
        ensures
            entry_views(entries@) == self.entries(),
    {
        proof {
            use_type_invariant(self);
        }
        match item_node(root_item(&self.doc)) {
            Some(Node::Table(entries)) => entries,
            _ => Vec::new(),
        }
    }

    /// A second document that holds and prints the same.
    pub fn duplicate(&self) -> (copy: Document)
        ensures
            copy.seen() == self.seen(),
    {
        proof {
            use_type_invariant(self);
        }
        Document { doc: copy_toml(&self.doc) }
    }
}

/// A text that is no valid document, with the parser's words on it.
#[derive(Debug, PartialEq, Eq)]
pub struct ParseError {
    pub message: String,
}

} // verus!
