//! The preview of an edit: the lines of the old and of the new text, each
//! marked as kept, taken out or put in.

use vstd::prelude::*;
use vstd::string::*;

verus! {

/// What became of a line.
#[derive(Debug, Clone, Copy, PartialEq, Eq, Structural)]
pub enum DiffTag {
    /// The line stands in both texts.
    Equal,
    /// The line stands in the new text only.
    Insert,
    /// The line stands in the old text only.
    Delete,
}

/// The colour that a line of the preview is shown in.
#[derive(Debug, Clone, Copy, PartialEq, Eq, Structural)]
pub enum DiffColor {
    Red,
    Green,
    White,
}

/// One line of the preview: what became of it, and its text without the
/// line feed.
#[derive(Debug, Clone, PartialEq, Eq)]
pub struct DiffLine {
    pub tag: DiffTag,
    pub text: String,
}

/// The mathematical value of a [`DiffLine`].
pub struct DiffLineView {
    pub tag: DiffTag,
    pub text: Seq<char>,
}

impl View for DiffLine {
    type V = DiffLineView;

    open spec fn view(&self) -> DiffLineView {
        DiffLineView { tag: self.tag, text: self.text@ }
    }
}

/// The line feed.
pub const LINE_FEED: char = '\n';

/// The lines of `old` and `new` in the order of a line diff, each with its
/// tag and with its line ending still on it.
pub uninterp spec fn line_changes(old: Seq<char>, new: Seq<char>) -> Seq<(DiffTag, Seq<char>)>;

/// `similar::TextDiff::from_lines` and `iter_all_changes`: the changes of a
/// line diff of two texts, in order. Which lines are kept, taken out or put
/// in is left to the differ and only named.
#[verifier::external_body]
fn changed_lines(old: &str, new: &str) -> (changes: Vec<(DiffTag, String)>)
    ensures
        raw_views(changes@) == line_changes(old@, new@),
{
    let diff = similar::TextDiff::from_lines(old, new);
    diff.iter_all_changes().map(|change| match change.tag() {
        similar::ChangeTag::Equal => (DiffTag::Equal, change.value().to_owned()),
        similar::ChangeTag::Insert => (DiffTag::Insert, change.value().to_owned()),
        similar::ChangeTag::Delete => (DiffTag::Delete, change.value().to_owned()),
    }).collect()
}

/// The changes as values.
pub open spec fn raw_views(changes: Seq<(DiffTag, String)>) -> Seq<(DiffTag, Seq<char>)> {
    Seq::new(changes.len(), |i: int| (changes[i].0, changes[i].1@))
}

/// A line without the line feed at its end, if it has one.
pub open spec fn without_line_feed(line: Seq<char>) -> Seq<char> {
    if line.len() > 0 && line.last() == LINE_FEED {
        line.drop_last()
    } else {
        line
    }
}

/// The lines of the preview that a differ's changes make.
pub open spec fn preview(changes: Seq<(DiffTag, Seq<char>)>) -> Seq<DiffLineView> {
    Seq::new(changes.len(), |i: int| DiffLineView { tag: changes[i].0, text: without_line_feed(changes[i].1) })
}

/// The views of `lines`, in order.
pub open spec fn line_views(lines: Seq<DiffLine>) -> Seq<DiffLineView> {
    Seq::new(lines.len(), |i: int| lines[i]@)
}

/// A line as the preview shows it: the marker, the text, a line feed.
pub open spec fn rendered(line: DiffLineView) -> Seq<char> {
    seq![marker_of(line.tag)] + line.text + seq![LINE_FEED]
}

/// The marker that a preview puts before a line.
pub open spec fn marker_of(tag: DiffTag) -> char {
    match tag {
        DiffTag::Delete => '-',
        DiffTag::Insert => '+',
        DiffTag::Equal => ' ',
    }
}

/// The colour that a preview shows a line in.
pub open spec fn color_of(tag: DiffTag) -> DiffColor {
    match tag {
        DiffTag::Delete => DiffColor::Red,
        DiffTag::Insert => DiffColor::Green,
        DiffTag::Equal => DiffColor::White,
    }
}

/// The whole preview as one text.
pub open spec fn rendered_all(lines: Seq<DiffLineView>) -> Seq<char>
    decreases lines.len(),
{
    if lines.len() == 0 {
        Seq::empty()
    } else {
        rendered_all(lines.drop_last()) + rendered(lines.last())
    }
}

impl DiffTag {
    /// The marker before a line of the preview.
    pub fn marker(self) -> (c: char)
        ensures
            c == marker_of(self),
    {
        match self {
            DiffTag::Delete => '-',
            DiffTag::Insert => '+',
            DiffTag::Equal => ' ',
        }
    }

    /// The colour of a line of the preview.
    pub fn color(self) -> (c: DiffColor)
        ensures
            c == color_of(self),
    {
        match self {
            DiffTag::Delete => DiffColor::Red,
            DiffTag::Insert => DiffColor::Green,
            DiffTag::Equal => DiffColor::White,
        }
    }

    fn marker_text(self) -> (s: &'static str)
        ensures
            s@ == seq![marker_of(self)],
    {
        proof {
            reveal_strlit("-");
            reveal_strlit("+");
            reveal_strlit(" ");
        }
        let s = match self {
            DiffTag::Delete => "-",
            DiffTag::Insert => "+",
            DiffTag::Equal => " ",
        };
        assert(s@ =~= seq![marker_of(self)]);
        s
    }
}

impl DiffLine {
    /// The line of the preview for one change of the differ: the same tag,
    /// and the line without its line feed.
    pub fn from_change(tag: DiffTag, raw: &str) -> (line: DiffLine)
        ensures
            line@ == (DiffLineView { tag, text: without_line_feed(raw@) }),
    {
        let n = raw.unicode_len();
        if n > 0 && raw.get_char(n - 1) == LINE_FEED {
            proof {
                assert(raw@.subrange(0, n - 1) =~= raw@.drop_last());
            }
            DiffLine { tag, text: String::from_str(raw.substring_char(0, n - 1)) }
        } else {
            DiffLine { tag, text: String::from_str(raw) }
        }
    }

    /// The line as the preview shows it.
    pub fn render(&self) -> (text: String)
        ensures
            text@ == rendered(self@),
    {
        proof {
            reveal_strlit("\n");
        }
        let mut text = String::from_str(self.tag.marker_text());
        text.append(self.text.as_str());
        text.append("\n");
        assert(text@ =~= rendered(self@));
        text
    }
}

/// The preview for the changes that a differ found.
pub fn preview_of(changes: &Vec<(DiffTag, String)>) -> (lines: Vec<DiffLine>)
    ensures
        line_views(lines@) == preview(raw_views(changes@)),
{
    let mut lines: Vec<DiffLine> = Vec::new();
    let mut i: usize = 0;
    while i < changes.len()
        invariant
            i <= changes.len(),
            lines.len() == i,
            forall|j: int| 0 <= j < i ==> lines@[j]@ == preview(raw_views(changes@))[j],
        decreases changes.len() - i,
    {
        let line = DiffLine::from_change(changes[i].0, changes[i].1.as_str());
        lines.push(line);
        i = i + 1;
    }
    assert(line_views(lines@) =~= preview(raw_views(changes@)));
    lines
}

/// The preview of going from `old` to `new`, line by line.
pub fn diff_lines(old: &str, new: &str) -> (lines: Vec<DiffLine>)
    ensures
        line_views(lines@) == preview(line_changes(old@, new@)),
{
    let changes = changed_lines(old, new);
    preview_of(&changes)
}

/// The whole preview as one text, line after line.
pub fn render_diff(lines: &Vec<DiffLine>) -> (text: String)
    ensures
        text@ == rendered_all(line_views(lines@)),
{
    let mut text = String::new();
    let mut i: usize = 0;
    assert(line_views(lines@).take(0) =~= Seq::<DiffLineView>::empty());
    while i < lines.len()
        invariant
            i <= lines.len(),
            text@ == rendered_all(line_views(lines@).take(i as int)),
        decreases lines.len() - i,
    {
        let line = lines[i].render();
        proof {
            let upto = line_views(lines@).take(i + 1);
            assert(upto.drop_last() =~= line_views(lines@).take(i as int));
            assert(upto.last() == lines@[i as int]@);
        }
        text.append(line.as_str());
        i = i + 1;
    }
    assert(line_views(lines@).take(lines.len() as int) =~= line_views(lines@));
    text
}

} // verus!
