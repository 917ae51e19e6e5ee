//! The manifest document: a [`Plan`] is an optional description and an
//! ordered list of [`Step`]s, one per `session` verb.
use vstd::prelude::*;

use crate::text::{debug_quoted, debug_str, decimal, join, join_strings, usize_to_decimal};

verus! {

/// Top-level manifest document.
#[derive(Debug)]
pub struct Plan {
    /// Optional human-readable description of the change.
    pub description: Option<String>,
    /// Steps applied in order. An empty list is a valid no-op.
    pub steps: Vec<Step>,
}

/// A single manifest step. Each variant corresponds 1:1 to a `session` verb.
#[derive(Debug)]
pub enum Step {
    /// Set the `Package:` field.
    RenamePackage { new_name: String },
    /// Set the `Suite:` field (appended if missing).
    ReplaceSuite { new_suite: String },
    /// Set the `Version:` field and rewrite versioned dependency
    /// constraints. `update_deps` is deprecated and ignored.
    Reversion { new_version: String, update_deps: bool },
    /// Copy local files into the package at package path `dest`; with
    /// `directory`, `dest` is a directory and each source keeps its basename.
    Insert { dest: String, sources: Vec<String>, directory: bool },
    /// Delete every package path matching the glob `pattern`.
    Remove { pattern: String },
    /// Rename a package path.
    Move { source: String, destination: String },
    /// Overwrite every package path matching `pattern` with a local file.
    Replace { pattern: String, replacement: String },
    /// Read a control field; when `expected` is set the step fails unless
    /// the value matches it exactly.
    ReadField { field: String, expected: Option<String> },
}

/// The mathematical value of a [`Step`]: its strings as character sequences.
pub enum StepView {
    RenamePackage { new_name: Seq<char> },
    ReplaceSuite { new_suite: Seq<char> },
    Reversion { new_version: Seq<char>, update_deps: bool },
    Insert { dest: Seq<char>, sources: Seq<Seq<char>>, directory: bool },
    Remove { pattern: Seq<char> },
    Move { source: Seq<char>, destination: Seq<char> },
    Replace { pattern: Seq<char>, replacement: Seq<char> },
    ReadField { field: Seq<char>, expected: Option<Seq<char>> },
}

impl View for Step {
    type V = StepView;

    open spec fn view(&self) -> StepView {
        match self {
            Step::RenamePackage { new_name } => StepView::RenamePackage { new_name: new_name@ },
            Step::ReplaceSuite { new_suite } => StepView::ReplaceSuite { new_suite: new_suite@ },
            Step::Reversion { new_version, update_deps } => StepView::Reversion {
                new_version: new_version@,
                update_deps: *update_deps,
            },
            Step::Insert { dest, sources, directory } => StepView::Insert {
                dest: dest@,
                sources: sources.deep_view(),
                directory: *directory,
            },
            Step::Remove { pattern } => StepView::Remove { pattern: pattern@ },
            Step::Move { source, destination } => StepView::Move {
                source: source@,
                destination: destination@,
            },
            Step::Replace { pattern, replacement } => StepView::Replace {
                pattern: pattern@,
                replacement: replacement@,
            },
            Step::ReadField { field, expected } => StepView::ReadField {
                field: field@,
                expected: expected.deep_view(),
            },
        }
    }
}

/// The mathematical value of a [`Plan`].
pub struct PlanView {
    pub description: Option<Seq<char>>,
    pub steps: Seq<StepView>,
}

impl View for Plan {
    type V = PlanView;

    open spec fn view(&self) -> PlanView {
        PlanView {
            description: self.description.deep_view(),
            steps: self.steps@.map_values(|s: Step| s@),
        }
    }
}

/// `Debug` rendering of a list of strings: `["a", "b"]`.
pub open spec fn debug_list(items: Seq<Seq<char>>) -> Seq<char> {
    seq!['['] + join(items.map_values(|s: Seq<char>| debug_quoted(s)), ", "@) + seq![']']
}

/// The one-line label of a step used in progress lines and error context.
pub open spec fn summary_text(step: StepView) -> Seq<char> {
    match step {
        StepView::RenamePackage { new_name } => "rename-package → "@ + new_name,
        StepView::ReplaceSuite { new_suite } => "replace-suite → "@ + new_suite,
        StepView::Reversion { new_version, .. } => "reversion → "@ + new_version,
        StepView::Insert { dest, sources, directory } => if directory {
            "insert -d "@ + dest + " ← "@ + decimal(sources.len()) + " file(s)"@
        } else {
            "insert "@ + dest + " ← "@ + debug_list(sources)
        },
        StepView::Remove { pattern } => "remove "@ + pattern,
        StepView::Move { source, destination } => "move "@ + source + " → "@ + destination,
        StepView::Replace { pattern, replacement } => "replace "@ + pattern + " ← "@ + replacement,
        StepView::ReadField { field, expected } => match expected {
            Some(e) => "read-field "@ + field + " == "@ + debug_quoted(e),
            None => "read-field "@ + field,
        },
    }
}

/// `Debug` rendering of a list of strings.
fn debug_strings(items: &Vec<String>) -> (r: String)
    ensures
        r@ == debug_list(items.deep_view()),
{
    let mut quoted: Vec<String> = Vec::new();
    let mut i: usize = 0;
    while i < items.len()
        invariant
            i <= items.len(),
            quoted.len() == i,
            forall|k: int| 0 <= k < i ==> #[trigger] quoted[k]@ == debug_quoted(items[k]@),
        decreases items.len() - i,
    {
        quoted.push(debug_str(items[i].as_str()));
        i = i + 1;
    }
    let inner = join_strings(&quoted, ", ");
    assert(quoted.deep_view() =~= items.deep_view().map_values(|s: Seq<char>| debug_quoted(s)));
    let mut r = String::from_str("[");
    r.append(inner.as_str());
    r.append("]");
    proof {
        reveal_strlit("[");
        reveal_strlit("]");
    }
    assert(r@ =~= debug_list(items.deep_view()));
    r
}

impl Step {
    /// A short one-line label for the step, used in progress lines and
    /// error context so the user can tell which step failed.
    pub fn summary(&self) -> (r: String)
        ensures
            r@ == summary_text(self@),
    {
        match self {
            Step::RenamePackage { new_name } => {
                String::from_str("rename-package → ").concat(new_name.as_str())
            },
            Step::ReplaceSuite { new_suite } => {
                String::from_str("replace-suite → ").concat(new_suite.as_str())
            },
            Step::Reversion { new_version, .. } => {
                String::from_str("reversion → ").concat(new_version.as_str())
            },
            Step::Insert { dest, sources, directory } => {
                if *directory {
                    let count = usize_to_decimal(sources.len());
                    String::from_str("insert -d ").concat(dest.as_str()).concat(" ← ").concat(
                        count.as_str(),
                    ).concat(" file(s)")
                } else {
                    let listed = debug_strings(sources);
                    String::from_str("insert ").concat(dest.as_str()).concat(" ← ").concat(
                        listed.as_str(),
                    )
                }
            },
            Step::Remove { pattern } => String::from_str("remove ").concat(pattern.as_str()),
            Step::Move { source, destination } => {
                String::from_str("move ").concat(source.as_str()).concat(" → ").concat(
                    destination.as_str(),
                )
            },
            Step::Replace { pattern, replacement } => {
                String::from_str("replace ").concat(pattern.as_str()).concat(" ← ").concat(
                    replacement.as_str(),
                )
            },
            Step::ReadField { field, expected } => match expected {
                Some(e) => {
                    let quoted = debug_str(e.as_str());
                    String::from_str("read-field ").concat(field.as_str()).concat(" == ").concat(
                        quoted.as_str(),
                    )
                },
                None => String::from_str("read-field ").concat(field.as_str()),
            },
        }
    }
}

} // verus!
