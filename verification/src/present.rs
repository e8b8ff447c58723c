//! Showing a document, or what the schema says of a key.

use vstd::prelude::*;
use vstd::string::*;
use crate::args::{HintQuery, DOT};
use crate::document::{entry_views, node_view, Document, Entry, EntryView, Node, NodeView};
use crate::schema::ConfigSchema;
use crate::text::join_pair;

verus! {

/// How a document is shown.
#[derive(Debug, Clone, Copy, PartialEq, Eq, Structural)]
pub enum PrintFormat {
    Default,
    Toml,
    Json,
    Human,
}

/// A colour of a table's header.
#[derive(Debug, Clone, Copy, PartialEq, Eq, Structural)]
pub enum Tint {
    Blue,
    Green,
    Yellow,
}

/// A line of a table: three cells.
#[derive(Debug, Clone, PartialEq, Eq)]
pub struct Row {
    pub key: String,
    pub middle: String,
    pub last: String,
}

/// The mathematical value of a [`Row`].
pub struct RowView {
    pub key: Seq<char>,
    pub middle: Seq<char>,
    pub last: Seq<char>,
}

impl View for Row {
    type V = RowView;

    open spec fn view(&self) -> RowView {
        RowView { key: self.key@, middle: self.middle@, last: self.last@ }
    }
}

/// The views of `rows`, in order.
pub open spec fn row_views(rows: Seq<Row>) -> Seq<RowView> {
    Seq::new(rows.len(), |i: int| rows[i]@)
}

/// What the schema says of the keys that were asked for.
#[derive(Debug, PartialEq, Eq)]
pub struct HintReport {
    /// Key, type and description: of each key that the schema knows, and
    /// under it of each of its children.
    pub rows: Vec<Row>,
    /// The keys that the schema does not know, in the order they were asked.
    pub unknown: Vec<String>,
}

/// The row that describes `node` under the name `key`.
pub open spec fn hint_row(key: Seq<char>, node: ConfigSchema) -> RowView {
    RowView { key, middle: node.type_info@, last: node.description@ }
}

/// The rows for one key that the schema knows as `node`: the node's own,
/// then one for each child, named `key.child`.
pub open spec fn rows_of(key: Seq<char>, node: ConfigSchema) -> Seq<RowView> {
    seq![hint_row(key, node)] + Seq::new(
        node.children@.len(),
        |i: int| hint_row(key + seq![DOT] + node.children@[i].path@, node.children@[i]),
    )
}

/// The rows for the keys asked, in order; a key that the schema does not
/// know has none.
pub open spec fn hint_rows(schema: ConfigSchema, keys: Seq<Seq<char>>) -> Seq<RowView>
    decreases keys.len(),
{
    if keys.len() == 0 {
        Seq::empty()
    } else {
        hint_rows(schema, keys.drop_last()) + match schema.lookup(keys.last()) {
            Some(node) => rows_of(keys.last(), node),
            None => Seq::empty(),
        }
    }
}

/// The keys asked that the schema does not know, in order.
pub open spec fn unknown_keys(schema: ConfigSchema, keys: Seq<Seq<char>>) -> Seq<Seq<char>>
    decreases keys.len(),
{
    if keys.len() == 0 {
        Seq::empty()
    } else {
        unknown_keys(schema, keys.drop_last()) + match schema.lookup(keys.last()) {
            Some(_) => Seq::empty(),
            None => seq![keys.last()],
        }
    }
}

/// The keys of `hints`, in order.
pub open spec fn asked(hints: Seq<HintQuery>) -> Seq<Seq<char>> {
    Seq::new(hints.len(), |i: int| hints[i].key@)
}

/// Looks every asked key up in the schema. A key that the schema does not
/// know is set aside and the others are still looked up.
pub fn describe(schema: &ConfigSchema, hints: &Vec<HintQuery>) -> (report: HintReport)
    ensures
        row_views(report.rows@) == hint_rows(*schema, asked(hints@)),
        report.unknown.deep_view() == unknown_keys(*schema, asked(hints@)),
{
    let mut rows: Vec<Row> = Vec::new();
    let mut unknown: Vec<String> = Vec::new();
    let ghost keys = asked(hints@);
    let mut i: usize = 0;
    proof {
        assert(keys.take(0) =~= Seq::<Seq<char>>::empty());
        assert(row_views(rows@) =~= Seq::<RowView>::empty());
        assert(unknown.deep_view() =~= Seq::<Seq<char>>::empty());
    }
    while i < hints.len()
        invariant
            i <= hints.len(),
            keys == asked(hints@),
            row_views(rows@) == hint_rows(*schema, keys.take(i as int)),
            unknown.deep_view() == unknown_keys(*schema, keys.take(i as int)),
        decreases hints.len() - i,
    {
        let key = hints[i].key.as_str();
        proof {
            assert(keys.take(i + 1).drop_last() =~= keys.take(i as int));
            assert(keys.take(i + 1).last() == key@);
        }
        match schema.find(key) {
            Some(node) => {
                let ghost before = row_views(rows@);
                rows.push(
                    Row {
                        key: String::from_str(key),
                        middle: String::from_str(node.type_info),
                        last: String::from_str(node.description),
                    },
                );
                let mut j: usize = 0;
                proof {
                    assert(row_views(rows@) =~= before + rows_of(key@, *node).take(1));
                }
                while j < node.children.len()
                    invariant
                        j <= node.children.len(),
                        row_views(rows@) == before + rows_of(key@, *node).take(j + 1),
                    decreases node.children.len() - j,
                {
                    let child = &node.children[j];
                    let ghost so_far = row_views(rows@);
                    rows.push(
                        Row {
                            key: join_pair(key, ".", child.path),
                            middle: String::from_str(child.type_info),
                            last: String::from_str(child.description),
                        },
                    );
                    proof {
                        reveal_strlit(".");
                        assert("."@ =~= seq![DOT]);
                        assert(row_views(rows@) =~= so_far.push(rows_of(key@, *node)[j + 1]));
                        assert(rows_of(key@, *node).take(j + 2) =~= rows_of(key@, *node).take(j + 1).push(
                            rows_of(key@, *node)[j + 1],
                        ));
                    }
                    j = j + 1;
                }
                proof {
                    assert(rows_of(key@, *node).take(node.children.len() + 1) =~= rows_of(key@, *node));
                    assert(unknown_keys(*schema, keys.take(i + 1)) =~= unknown_keys(*schema, keys.take(i as int)));
                }
            },
            None => {
                let ghost before = unknown.deep_view();
                unknown.push(String::from_str(key));
                proof {
                    assert(unknown.deep_view() =~= before.push(key@));
                    assert(hint_rows(*schema, keys.take(i + 1)) =~= hint_rows(*schema, keys.take(i as int)));
                }
            },
        }
        i = i + 1;
    }
    proof {
        assert(keys.take(hints.len() as int) =~= keys);
    }
    HintReport { rows, unknown }
}

/// The dotted path of `key` under `prefix`.
pub open spec fn child_path(prefix: Seq<char>, key: Seq<char>) -> Seq<char> {
    if prefix.len() == 0 {
        key
    } else {
        prefix + seq![DOT] + key
    }
}

/// The rows for the first `n` entries of a table that stands at `prefix`;
/// the root stands at the empty prefix.
pub open spec fn table_rows(schema: ConfigSchema, prefix: Seq<char>, entries: Seq<EntryView>, n: nat) -> Seq<
    RowView,
>
    decreases entries, n,
{
    if n == 0 || n > entries.len() {
        Seq::empty()
    } else {
        table_rows(schema, prefix, entries, (n - 1) as nat) + entry_rows(schema, prefix, entries[n - 1])
    }
}

/// The rows for one entry of a table that stands at `prefix`: none where
/// the schema does not know the entry's path; one row of path, value and
/// type where it is a value; the rows of its entries where it is a table;
/// none for an array of tables, which has no value of its own.
pub open spec fn entry_rows(schema: ConfigSchema, prefix: Seq<char>, entry: EntryView) -> Seq<RowView>
    decreases entry, 0nat,
{
    let path = child_path(prefix, entry.key);
    match schema.lookup(path) {
        None => Seq::empty(),
        Some(found) => match entry.node {
            NodeView::Value { text } => seq![RowView { key: path, middle: text, last: found.type_info@ }],
            NodeView::Table(children) => table_rows(schema, path, children, children.len()),
            NodeView::ArrayOfTables => Seq::empty(),
        },
    }
}

/// The rows of the tabular view: the document walked in its own order, with
/// a row of path, value and type for every value whose path the schema
/// knows and that is reached through tables the schema knows, and nothing
/// for the rest.
pub open spec fn human_rows(schema: ConfigSchema, entries: Seq<EntryView>) -> Seq<RowView> {
    table_rows(schema, Seq::empty(), entries, entries.len())
}

/// Adds to `rows` the rows for the entries of a table that stands at
/// `prefix`.
fn add_table_rows(schema: &ConfigSchema, prefix: &str, entries: &Vec<Entry>, rows: &mut Vec<Row>)
    ensures
        row_views(final(rows)@) == row_views(old(rows)@) + table_rows(
            *schema,
            prefix@,
            entry_views(entries@),
            entries.len() as nat,
        ),
    decreases entries,
{
    let ghost start = row_views(rows@);
    let ghost views = entry_views(entries@);
    let mut i: usize = 0;
    proof {
        assert(start + table_rows(*schema, prefix@, views, 0) =~= start);
    }
    while i < entries.len()
        invariant
            i <= entries.len(),
            views == entry_views(entries@),
            row_views(rows@) == start + table_rows(*schema, prefix@, views, i as nat),
        decreases entries.len() - i,
    {
        let entry = &entries[i];
        let path = if prefix.unicode_len() == 0 {
            String::from_str(entry.key.as_str())
        } else {
            join_pair(prefix, ".", entry.key.as_str())
        };
        proof {
            reveal_strlit(".");
            assert("."@ =~= seq![DOT]);
            assert(views[i as int] == (EntryView { key: entry.key@, node: node_view(entry.node) }));
            assert(path@ == child_path(prefix@, entry.key@));
        }
        let ghost before = row_views(rows@);
        match schema.find(path.as_str()) {
            None => {
                proof {
                    assert(before + Seq::<RowView>::empty() =~= before);
                }
            },
            Some(found) => match &entry.node {
                Node::Table(children) => {
                    assert(decreases_to!(*entries => entries@));
                    assert(decreases_to!(entries@ => entries@[i as int]));
                    assert(decreases_to!(entries@[i as int] => entries@[i as int].node));
                    assert(decreases_to!(entries@[i as int].node => entries@[i as int].node->Table_0));
                    add_table_rows(schema, path.as_str(), children, rows);
                },
                Node::Value { text } => {
                    rows.push(Row { key: path, middle: text.clone(), last: String::from_str(found.type_info) });
                    proof {
                        assert(row_views(rows@) =~= before + entry_rows(*schema, prefix@, views[i as int]));
                    }
                },
                Node::ArrayOfTables => {
                    proof {
                        assert(before + Seq::<RowView>::empty() =~= before);
                    }
                },
            },
        }
        proof {
            assert(row_views(rows@) == before + entry_rows(*schema, prefix@, views[i as int]));
            assert(start + table_rows(*schema, prefix@, views, i as nat) + entry_rows(
                *schema,
                prefix@,
                views[i as int],
            ) =~= start + table_rows(*schema, prefix@, views, (i + 1) as nat));
        }
        i = i + 1;
    }
}

/// The rows of the tabular view of a document's tree.
pub fn human_view(schema: &ConfigSchema, entries: &Vec<Entry>) -> (rows: Vec<Row>)
    ensures
        row_views(rows@) == human_rows(*schema, entry_views(entries@)),
{
    let mut rows: Vec<Row> = Vec::new();
    proof {
        reveal_strlit("");
        assert(""@ =~= Seq::<char>::empty());
        assert(row_views(rows@) =~= Seq::<RowView>::empty());
        assert(Seq::<RowView>::empty() + human_rows(*schema, entry_views(entries@)) =~= human_rows(
            *schema,
            entry_views(entries@),
        ));
    }
    add_table_rows(schema, "", entries, &mut rows);
    rows
}

#[verifier::external_type_specification]
#[verifier::external_body]
pub struct ExJsonValue(serde_json::Value);

#[verifier::external_type_specification]
#[verifier::external_body]
pub struct ExTomlDeError(toml::de::Error);

#[verifier::external_type_specification]
#[verifier::external_body]
pub struct ExJsonError(serde_json::Error);

/// The text that a JSON value is written as, indented.
pub uninterp spec fn json_text(value: serde_json::Value) -> Seq<char>;

/// A TOML text as indented JSON: the text of the JSON value that the TOML
/// reads as, or nothing where it does not read as one.
pub uninterp spec fn toml_as_json(text: Seq<char>) -> Option<Seq<char>>;

/// `toml::from_str` at `serde_json::Value`: the JSON value that a TOML text
/// reads as.
#[verifier::external_body]
fn toml_to_json(text: &str) -> (r: Result<serde_json::Value, toml::de::Error>)
    ensures
        match r {
            Ok(value) => toml_as_json(text@) == Some(json_text(value)),
            Err(_) => toml_as_json(text@) is None,
        },
{
    toml::from_str(text)
}

/// `serde_json::to_string_pretty`: a JSON value as indented text. Writing a
/// `serde_json::Value` to a string has nothing that fails, so the result is
/// always `Ok`.
#[verifier::external_body]
fn json_pretty(value: &serde_json::Value) -> (r: Result<String, serde_json::Error>)
    ensures
        r is Ok,
        r matches Ok(text) ==> text@ == json_text(*value),
{
    serde_json::to_string_pretty(value)
}

/// `Display` of `toml::de::Error`: the reader's message.
#[verifier::external_body]
fn toml_reader_message(error: &toml::de::Error) -> (message: String)
{
    error.to_string()
}

/// `comfy_table::Table`: a table of the given frame, header and rows, drawn
/// as text. How it is drawn depends on whether the output is a terminal, so
/// nothing is said of the text.
#[verifier::external_body]
fn draw_table(frame: &str, header: &Vec<(String, Tint)>, rows: &Vec<Row>) -> (drawn: String)
{
    let mut table = comfy_table::Table::new();
    table.load_preset(frame);
    table.set_header(header.iter().map(|(text, tint)| comfy_table::Cell::new(text).fg(match tint {
        Tint::Blue => comfy_table::Color::Blue,
        Tint::Green => comfy_table::Color::Green,
        Tint::Yellow => comfy_table::Color::Yellow,
    })));
    table.add_rows(rows.iter().map(|row| vec![&row.key, &row.middle, &row.last]));
    table.to_string()
}

/// Why a document cannot be shown.
#[derive(Debug, PartialEq, Eq)]
pub enum PresentError {
    /// The text does not read as a JSON value; the text says why.
    Unreadable(String),
}

/// A document as it is shown.
#[derive(Debug, PartialEq, Eq)]
pub enum Shown {
    /// As a text: the document's own, or JSON.
    Text(String),
    /// As the rows of the tabular view: path, value and type.
    Table(Vec<Row>),
}

/// The frame of the tables.
pub fn table_frame() -> (frame: &'static str)
    ensures
        frame@ == "││──├─┤─┼─└ ┴┬┌ ┐"@,
{
    "││──├─┤─┼─└ ┴┬┌ ┐"
}

/// A TOML text as indented JSON, with the keys in the order of the text.
pub fn to_json(text: &str) -> (r: Result<String, PresentError>)
    ensures
        match toml_as_json(text@) {
            Some(json) => r matches Ok(written) && written@ == json,
            None => r matches Err(PresentError::Unreadable(_)),
        },
{
    match toml_to_json(text) {
        Ok(value) => match json_pretty(&value) {
            Ok(json) => Ok(json),
            Err(_) => unreached(),
        },
        Err(error) => Err(PresentError::Unreadable(toml_reader_message(&error))),
    }
}

/// The labels of a header with their tints, as values.
pub open spec fn header_views(header: Seq<(String, Tint)>) -> Seq<(Seq<char>, Tint)> {
    Seq::new(header.len(), |i: int| (header[i].0@, header[i].1))
}

/// A header of three labels with their tints.
fn header_of(first: (&str, Tint), second: (&str, Tint), third: (&str, Tint)) -> (header: Vec<(String, Tint)>)
    ensures
        header_views(header@) == seq![(first.0@, first.1), (second.0@, second.1), (third.0@, third.1)],
{
    let mut header: Vec<(String, Tint)> = Vec::new();
    header.push((String::from_str(first.0), first.1));
    header.push((String::from_str(second.0), second.1));
    header.push((String::from_str(third.0), third.1));
    assert(header_views(header@) =~= seq![(first.0@, first.1), (second.0@, second.1), (third.0@, third.1)]);
    header
}

/// The header of the table of hints: key in blue, type in yellow,
/// description in green.
pub fn hint_header() -> (header: Vec<(String, Tint)>)
    ensures
        header_views(header@) == seq![
            ("Key"@, Tint::Blue),
            ("Type"@, Tint::Yellow),
            ("Description"@, Tint::Green),
        ],
{
    header_of(("Key", Tint::Blue), ("Type", Tint::Yellow), ("Description", Tint::Green))
}

/// The header of the tabular view: key in blue, value in green, type in
/// yellow.
pub fn human_header() -> (header: Vec<(String, Tint)>)
    ensures
        header_views(header@) == seq![("Key"@, Tint::Blue), ("Value"@, Tint::Green), ("Type"@, Tint::Yellow)],
{
    header_of(("Key", Tint::Blue), ("Value", Tint::Green), ("Type", Tint::Yellow))
}

/// The table of what the schema says of the keys asked for, drawn in the
/// frame of `table_frame` under the header of `hint_header`.
pub fn hint_table(rows: &Vec<Row>) -> (drawn: String) {
    draw_table(table_frame(), &hint_header(), rows)
}

/// The table of the tabular view, drawn in the frame of `table_frame`
/// under the header of `human_header`.
pub fn human_table(rows: &Vec<Row>) -> (drawn: String) {
    draw_table(table_frame(), &human_header(), rows)
}

/// What `present` gives for a document that prints as `text` and whose
/// root table holds `entries`.
pub open spec fn shown_as(format: PrintFormat, schema: ConfigSchema, text: Seq<char>, entries: Seq<EntryView>) -> Option<
    ShownView,
> {
    match format {
        PrintFormat::Default | PrintFormat::Toml => Some(ShownView::Text(text)),
        PrintFormat::Json => match toml_as_json(text) {
            Some(json) => Some(ShownView::Text(json)),
            None => None,
        },
        PrintFormat::Human => Some(ShownView::Table(human_rows(schema, entries))),
    }
}

/// The mathematical value of a [`Shown`].
pub enum ShownView {
    Text(Seq<char>),
    Table(Seq<RowView>),
}

impl View for Shown {
    type V = ShownView;

    open spec fn view(&self) -> ShownView {
        match self {
            Shown::Text(text) => ShownView::Text(text@),
            Shown::Table(rows) => ShownView::Table(row_views(rows@)),
        }
    }
}

/// Shows a document: as its own text, as JSON, or as the rows of what the
/// schema knows in it. Only JSON can fail, where the text does not read as a
/// JSON value.
pub fn present(format: PrintFormat, document: &Document, schema: &ConfigSchema) -> (r: Result<
    Shown,
    PresentError,
>)
    ensures
        match shown_as(format, *schema, document.text(), document.entries()) {
            Some(view) => r matches Ok(shown) && shown@ == view,
            None => r matches Err(PresentError::Unreadable(_)),
        },
{
    match format {
        PrintFormat::Default | PrintFormat::Toml => Ok(Shown::Text(document.to_text())),
        PrintFormat::Json => {
            let text = document.to_text();
            match to_json(text.as_str()) {
                Ok(json) => Ok(Shown::Text(json)),
                Err(error) => Err(error),
            }
        },
        PrintFormat::Human => {
            let entries = document.tree();
            Ok(Shown::Table(human_view(schema, &entries)))
        },
    }
}

/// The warning for a key that the schema does not know.
pub fn unknown_key_warning(key: &str) -> (warning: String)
    ensures
        warning@ == "warning: no schema found for key '"@ + key@ + "'"@,
{
    join_pair("warning: no schema found for key '", key, "'")
}

} // verus!
