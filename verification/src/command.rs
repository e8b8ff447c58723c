//! The command as a whole: what to do with a document and a list of
//! arguments, and what to do once the edited text has been checked.

use vstd::prelude::*;
use vstd::string::*;
use crate::args::{Argument, HintQuery, DOT};
use crate::diff::{diff_lines, line_changes, line_views, preview, DiffLine};
use crate::document::{parsed, Document};
use crate::editor::{after_edits, any_change, first_refusal, Edit, EditError, EditView};
use crate::present::{
    asked, describe, hint_rows, present, row_views, shown_as, unknown_keys, HintReport, PresentError,
    PrintFormat, Shown,
};
use crate::schema::ConfigSchema;
use crate::text::{join, split_on};

verus! {

/// The command: the arguments, how to show the document, and whether to
/// write the edited document back.
#[derive(Debug)]
pub struct ConfigCommand {
    pub args: Vec<Argument>,
    pub print: PrintFormat,
    pub save: bool,
}

/// Why the command fails.
#[derive(Debug, PartialEq, Eq)]
pub enum ConfigError {
    /// There is no document at the place given.
    NotInitialized(String),
    /// The document is no valid TOML; the text says why.
    Unparsable(String),
    /// The edit of this number, counted from 0, cannot be applied.
    Unresolved(usize, EditError),
    /// The strict loader refuses the edited document; the text is its own.
    ValidationFailed(String),
    /// The document cannot be shown in the format asked for.
    Unpresentable(PresentError),
    /// Reading or writing failed; the text says what.
    IoFailure(String),
}

/// What the command asks for first.
#[derive(Debug)]
pub enum Step {
    /// Keys were asked about: show what the schema says. Nothing is edited.
    Hints(HintReport),
    /// Nothing was asked and nothing assigned: show the document, as this
    /// text or as these rows.
    Show(Shown),
    /// Edits were applied: have the strict loader check the edited text,
    /// then conclude.
    Validate(Pending),
}

/// An edited document that waits for the strict loader's word.
#[derive(Debug)]
pub struct Pending {
    /// The text as it was read.
    pub unedited: String,
    /// The edited document.
    pub document: Document,
    /// The text of the edited document: what is checked, and what is
    /// written if it is written.
    pub edited: String,
    /// Whether an edit changed the value at its path.
    pub changed: bool,
    /// Whether the edited document is to be written back.
    pub save: bool,
    /// The keys assigned that the schema does not know, in order: the edit
    /// is made all the same, and each is worth a warning.
    pub unknown: Vec<String>,
}

/// What to do once the edited text has been checked and found good.
#[derive(Debug, PartialEq, Eq)]
pub enum Outcome {
    /// Write this text in place of the document.
    Save(String),
    /// Show these lines, and how to write the change.
    Preview(Vec<DiffLine>),
    /// Say that nothing changed.
    NoChanges,
}

/// The keys that `args` ask about, in order.
pub open spec fn hint_keys(args: Seq<Argument>) -> Seq<Seq<char>>
    decreases args.len(),
{
    if args.len() == 0 {
        Seq::empty()
    } else {
        hint_keys(args.drop_last()) + match args.last() {
            Argument::Hint(hint) => seq![hint.key@],
            Argument::Assign(_) => Seq::empty(),
        }
    }
}

/// The keys that `args` assign to, in order.
pub open spec fn assigned_keys(args: Seq<Argument>) -> Seq<Seq<char>>
    decreases args.len(),
{
    if args.len() == 0 {
        Seq::empty()
    } else {
        assigned_keys(args.drop_last()) + match args.last() {
            Argument::Hint(_) => Seq::empty(),
            Argument::Assign(pair) => seq![pair.key@],
        }
    }
}

/// The edits that `args` ask for, in order: each key cut at its dots, with
/// its value.
pub open spec fn edits_in(args: Seq<Argument>) -> Seq<EditView>
    decreases args.len(),
{
    if args.len() == 0 {
        Seq::empty()
    } else {
        edits_in(args.drop_last()) + match args.last() {
            Argument::Hint(_) => Seq::empty(),
            Argument::Assign(pair) => seq![EditView { path: split_on(pair.key@, DOT), value: pair.value@ }],
        }
    }
}

impl ConfigCommand {
    /// The keys asked about, in order.
    pub fn hints(&self) -> (hints: Vec<HintQuery>)
        ensures
            asked(hints@) == hint_keys(self.args@),
    {
        let mut hints: Vec<HintQuery> = Vec::new();
        let mut i: usize = 0;
        proof {
            assert(self.args@.take(0) =~= Seq::<Argument>::empty());
            assert(asked(hints@) =~= Seq::<Seq<char>>::empty());
        }
        while i < self.args.len()
            invariant
                i <= self.args.len(),
                asked(hints@) == hint_keys(self.args@.take(i as int)),
            decreases self.args.len() - i,
        {
            proof {
                assert(self.args@.take(i + 1).drop_last() =~= self.args@.take(i as int));
                assert(self.args@.take(i + 1).last() == self.args@[i as int]);
            }
            let ghost before = asked(hints@);
            match &self.args[i] {
                Argument::Hint(hint) => {
                    hints.push(HintQuery { key: hint.key.clone() });
                    proof {
                        assert(asked(hints@) =~= before + seq![hint.key@]);
                    }
                },
                Argument::Assign(_) => {
                    proof {
                        assert(before + Seq::<Seq<char>>::empty() =~= before);
                    }
                },
            }
            i = i + 1;
        }
        proof {
            assert(self.args@.take(self.args.len() as int) =~= self.args@);
        }
        hints
    }

    /// The keys assigned to, in order.
    pub fn assigned(&self) -> (keys: Vec<HintQuery>)
        ensures
            asked(keys@) == assigned_keys(self.args@),
    {
        let mut keys: Vec<HintQuery> = Vec::new();
        let mut i: usize = 0;
        proof {
            assert(self.args@.take(0) =~= Seq::<Argument>::empty());
            assert(asked(keys@) =~= Seq::<Seq<char>>::empty());
        }
        while i < self.args.len()
            invariant
                i <= self.args.len(),
                asked(keys@) == assigned_keys(self.args@.take(i as int)),
            decreases self.args.len() - i,
        {
            proof {
                assert(self.args@.take(i + 1).drop_last() =~= self.args@.take(i as int));
                assert(self.args@.take(i + 1).last() == self.args@[i as int]);
            }
            let ghost before = asked(keys@);
            match &self.args[i] {
                Argument::Assign(pair) => {
                    keys.push(HintQuery { key: pair.key.clone() });
                    proof {
                        assert(asked(keys@) =~= before + seq![pair.key@]);
                    }
                },
                Argument::Hint(_) => {
                    proof {
                        assert(before + Seq::<Seq<char>>::empty() =~= before);
                    }
                },
            }
            i = i + 1;
        }
        proof {
            assert(self.args@.take(self.args.len() as int) =~= self.args@);
        }
        keys
    }

    /// The edits asked for, in order.
    pub fn edits(&self) -> (edits: Vec<Edit>)
        ensures
            crate::editor::edit_views(edits@) == edits_in(self.args@),
    {
        let mut edits: Vec<Edit> = Vec::new();
        let mut i: usize = 0;
        proof {
            assert(self.args@.take(0) =~= Seq::<Argument>::empty());
            assert(crate::editor::edit_views(edits@) =~= Seq::<EditView>::empty());
        }
        while i < self.args.len()
            invariant
                i <= self.args.len(),
                crate::editor::edit_views(edits@) == edits_in(self.args@.take(i as int)),
            decreases self.args.len() - i,
        {
            proof {
                assert(self.args@.take(i + 1).drop_last() =~= self.args@.take(i as int));
                assert(self.args@.take(i + 1).last() == self.args@[i as int]);
            }
            let ghost before = crate::editor::edit_views(edits@);
            match &self.args[i] {
                Argument::Hint(_) => {
                    proof {
                        assert(before + Seq::<EditView>::empty() =~= before);
                    }
                },
                Argument::Assign(pair) => {
                    let edit = pair.to_edit();
                    edits.push(edit);
                    proof {
                        assert(crate::editor::edit_views(edits@) =~= before + seq![
                            EditView { path: split_on(pair.key@, DOT), value: pair.value@ },
                        ]);
                    }
                },
            }
            i = i + 1;
        }
        proof {
            assert(self.args@.take(self.args.len() as int) =~= self.args@);
        }
        edits
    }

    /// Decides what the command does with the document whose text is
    /// `toml_str`.
    ///
    /// Where a key is asked about, the answer is what the schema says of
    /// the keys asked, and no edit is applied. Where nothing is asked and
    /// nothing assigned, the answer is the document in the format chosen.
    /// Else the edits are applied in order, all or none, and the answer is
    /// the edited document, to be checked by the strict loader before
    /// anything is written. A key that the schema does not know can be
    /// assigned to; it is listed for a warning.
    pub fn run(&self, toml_str: &str, schema: &ConfigSchema) -> (r: Result<Step, ConfigError>)
        ensures
            parsed(toml_str@) is None <==> r matches Err(ConfigError::Unparsable(_)),
            parsed(toml_str@) matches Some(read) ==> {
                let keys = hint_keys(self.args@);
                let edits = edits_in(self.args@);
                if keys.len() > 0 {
                    r matches Ok(Step::Hints(report)) && row_views(report.rows@) == hint_rows(*schema, keys)
                        && report.unknown.deep_view() == unknown_keys(*schema, keys)
                } else if edits.len() == 0 {
                    match shown_as(self.print, *schema, read.text, read.entries) {
                        Some(view) => r matches Ok(Step::Show(shown)) && shown@ == view,
                        None => r matches Err(ConfigError::Unpresentable(PresentError::Unreadable(_))),
                    }
                } else {
                    match first_refusal(read.slots, edits) {
                        Some((i, reason)) => r matches Err(ConfigError::Unresolved(at, why)) && at == i && why
                            == reason,
                        None => {
                            &&& r matches Ok(Step::Validate(pending))
                            &&& pending.unedited@ == toml_str@
                            &&& pending.document.slots() == after_edits(read.slots, edits)
                            &&& pending.edited@ == pending.document.text()
                            &&& pending.changed == any_change(read.slots, edits)
                            &&& !pending.changed ==> pending.edited@ == read.text
                            &&& pending.save == self.save
                            &&& pending.unknown.deep_view() == unknown_keys(*schema, assigned_keys(self.args@))
                        },
                    }
                }
            },
    {
        let mut document = match Document::parse(toml_str) {
            Ok(document) => document,
            Err(error) => {
                return Err(ConfigError::Unparsable(error.message));
            },
        };
        let hints = self.hints();
        if hints.len() > 0 {
            return Ok(Step::Hints(describe(schema, &hints)));
        }
        let edits = self.edits();
        if edits.len() == 0 {
            return match present(self.print, &document, schema) {
                Ok(shown) => Ok(Step::Show(shown)),
                Err(error) => Err(ConfigError::Unpresentable(error)),
            };
        }
        match document.apply_edits(&edits) {
            Ok(changed) => {
                let edited = document.to_text();
                let unknown = describe(schema, &self.assigned()).unknown;
                Ok(
                    Step::Validate(
                        Pending {
                            unedited: String::from_str(toml_str),
                            document,
                            edited,
                            changed,
                            save: self.save,
                            unknown,
                        },
                    ),
                )
            },
            Err((at, reason)) => Err(ConfigError::Unresolved(at, reason)),
        }
    }
}

impl Pending {
    /// Decides what to do with the edited document, given the strict
    /// loader's word on its text: `Ok`, or the loader's message.
    ///
    /// A refused document gives the error and nothing to write. An accepted
    /// one is written where an edit changed a value and writing was asked
    /// for, previewed where it was not asked for, and left alone where no
    /// edit changed a value.
    pub fn conclude(self, verdict: Result<(), String>) -> (r: Result<Outcome, ConfigError>)
        ensures
            match verdict {
                Err(reason) => r matches Err(ConfigError::ValidationFailed(said)) && said@ == reason@,
                Ok(_) => if !self.changed {
                    r matches Ok(Outcome::NoChanges)
                } else if self.save {
                    r matches Ok(Outcome::Save(text)) && text@ == self.edited@
                } else {
                    r matches Ok(Outcome::Preview(lines)) && line_views(lines@) == preview(
                        line_changes(self.unedited@, self.edited@),
                    )
                },
            },
    {
        match verdict {
            Err(reason) => Err(ConfigError::ValidationFailed(reason)),
            Ok(_) => {
                if !self.changed {
                    Ok(Outcome::NoChanges)
                } else if self.save {
                    Ok(Outcome::Save(self.edited))
                } else {
                    Ok(Outcome::Preview(diff_lines(self.unedited.as_str(), self.edited.as_str())))
                }
            },
        }
    }
}

impl Outcome {
    /// What to tell the user besides.
    pub fn notice(&self) -> (text: &'static str)
        ensures
            text@ == match self {
                Outcome::Save(_) => "Node configuration has been updated"@,
                Outcome::Preview(_) => "\nnote: if this looks right, use `-s, --save` to persist these modifications"@,
                Outcome::NoChanges => "warning: no changes were made to the configuration"@,
            },
    {
        match self {
            Outcome::Save(_) => "Node configuration has been updated",
            Outcome::Preview(_) => "\nnote: if this looks right, use `-s, --save` to persist these modifications",
            Outcome::NoChanges => "warning: no changes were made to the configuration",
        }
    }
}

impl ConfigError {
    /// The error in words.
    pub fn message(&self) -> (text: String)
        ensures
            self matches ConfigError::ValidationFailed(reason) ==> text@ == "Config validation failed: "@
                + reason@,
            self matches ConfigError::NotInitialized(place) ==> text@ == "Node is not initialized in "@
                + place@,
    {
        match self {
            ConfigError::NotInitialized(place) => join("Node is not initialized in ", place.as_str()),
            ConfigError::Unparsable(why) => join("The configuration is no valid TOML: ", why.as_str()),
            ConfigError::Unresolved(_, reason) => match reason {
                EditError::EmptyPath => String::from_str("An edit names no key"),
                EditError::Unstorable => String::from_str("An edit holds a float that cannot be written"),
                EditError::Blocked => String::from_str("An edit's key leads through a value that is no table"),
            },
            ConfigError::ValidationFailed(reason) => join("Config validation failed: ", reason.as_str()),
            ConfigError::Unpresentable(PresentError::Unreadable(why)) => join(
                "The configuration does not read as JSON: ",
                why.as_str(),
            ),
            ConfigError::IoFailure(what) => what.clone(),
        }
    }
}

} // verus!
