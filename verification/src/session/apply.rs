//! Running a [`Plan`] against an opened session.
//!
//! The session itself (its control file and data tree) lives on disk, so the
//! run is a state machine: [`apply`] takes the run's [`Progress`] and the
//! [`Event`] reported for the last request and answers with the next
//! [`Progress`] and an [`Action`]: perform a session operation, probe local
//! files (dry run), or finish with the run's result.
//!
//! Steps run in order. The first failing step ends the run with an error
//! naming it; the remaining steps are skipped. A dry run never asks for a
//! session operation: it only checks step shapes and that local source files
//! exist as regular files.
use vstd::prelude::*;

use super::plan::{Plan, PlanView, Step, StepView, summary_text};
use crate::text::{debug_quoted, debug_str, decimal, usize_to_decimal};

verus! {

// ---------------------------------------------------------------------------
// Local path resolution
// ---------------------------------------------------------------------------

/// Whether a local path is absolute (begins at the root `/`).
pub open spec fn is_absolute_path(p: Seq<char>) -> bool {
    p.len() > 0 && p[0] == '/'
}

/// A manifest-relative local path resolved against the manifest's
/// directory: absolute paths are kept as given; relative ones are joined
/// under `dir` with one `/` between them (none when `dir` is empty or
/// already ends in `/`).
pub open spec fn resolved_path(dir: Seq<char>, p: Seq<char>) -> Seq<char> {
    if is_absolute_path(p) {
        p
    } else if dir.len() == 0 || dir.last() == '/' {
        dir + p
    } else {
        dir + seq!['/'] + p
    }
}

/// Resolve a manifest-relative local path against the manifest's parent
/// directory. Absolute paths are returned unchanged.
pub fn resolve_local(manifest_dir: &str, p: &str) -> (r: String)
    ensures
        r@ == resolved_path(manifest_dir@, p@),
{
    let pn = p.unicode_len();
    if pn > 0 && p.get_char(0) == '/' {
        return String::from_str(p);
    }
    let dn = manifest_dir.unicode_len();
    let mut r = String::from_str(manifest_dir);
    if dn > 0 && manifest_dir.get_char(dn - 1) != '/' {
        crate::text::push_char(&mut r, '/');
    }
    r.append(p);
    r
}

/// Resolves every path of `ps` against `dir`.
fn resolve_all(manifest_dir: &str, ps: &Vec<String>) -> (r: Vec<String>)
    ensures
        r.deep_view() == ps.deep_view().map_values(|p: Seq<char>| resolved_path(manifest_dir@, p)),
{
    let mut r: Vec<String> = Vec::new();
    let mut i: usize = 0;
    while i < ps.len()
        invariant
            i <= ps.len(),
            r.len() == i,
            forall|k: int| 0 <= k < i ==> #[trigger] r[k]@ == resolved_path(manifest_dir@, ps[k]@),
        decreases ps.len() - i,
    {
        r.push(resolve_local(manifest_dir, ps[i].as_str()));
        i = i + 1;
    }
    assert(r.deep_view() =~= ps.deep_view().map_values(|p: Seq<char>| resolved_path(manifest_dir@, p)));
    r
}

// ---------------------------------------------------------------------------
// Errors
// ---------------------------------------------------------------------------

/// Why a single step failed.
#[derive(Debug)]
pub enum StepError {
    /// `insert` with an empty `sources` list.
    InsertNoSources,
    /// `insert` with several sources but `directory` false.
    InsertNeedsDirectory { count: usize },
    /// Dry run: an `insert` source is not an existing file.
    InsertSourceMissing { path: String },
    /// Dry run: a `replace` replacement is not an existing file.
    ReplacementMissing { path: String },
    /// `read-field` read a value other than the expected one.
    FieldMismatch { field: String, expected: String, actual: String },
    /// The session operation itself failed, with its message.
    Session { message: String },
}

pub enum StepErrorView {
    InsertNoSources,
    InsertNeedsDirectory { count: nat },
    InsertSourceMissing { path: Seq<char> },
    ReplacementMissing { path: Seq<char> },
    FieldMismatch { field: Seq<char>, expected: Seq<char>, actual: Seq<char> },
    Session { message: Seq<char> },
}

impl View for StepError {
    type V = StepErrorView;

    open spec fn view(&self) -> StepErrorView {
        match self {
            StepError::InsertNoSources => StepErrorView::InsertNoSources,
            StepError::InsertNeedsDirectory { count } => StepErrorView::InsertNeedsDirectory {
                count: *count as nat,
            },
            StepError::InsertSourceMissing { path } => StepErrorView::InsertSourceMissing {
                path: path@,
            },
            StepError::ReplacementMissing { path } => StepErrorView::ReplacementMissing {
                path: path@,
            },
            StepError::FieldMismatch { field, expected, actual } => StepErrorView::FieldMismatch {
                field: field@,
                expected: expected@,
                actual: actual@,
            },
            StepError::Session { message } => StepErrorView::Session { message: message@ },
        }
    }
}

/// The text of a step error.
pub open spec fn step_error_text(e: StepErrorView) -> Seq<char> {
    match e {
        StepErrorView::InsertNoSources => "insert: `sources` is empty"@,
        StepErrorView::InsertNeedsDirectory { count } => "insert: "@ + decimal(count)
            + " sources but `directory` is false — must be true to use multiple sources"@,
        StepErrorView::InsertSourceMissing { path } => "insert: source file does not exist: "@
            + path,
        StepErrorView::ReplacementMissing { path } =>
            "replace: replacement file does not exist: "@ + path,
        StepErrorView::FieldMismatch { field, expected, actual } =>
            "read-field assertion failed for `"@ + field + "`:\n  expected: "@ + debug_quoted(
                expected,
            ) + "\n    actual: "@ + debug_quoted(actual),
        StepErrorView::Session { message } => message,
    }
}

impl StepError {
    /// The error's message.
    pub fn message(&self) -> (r: String)
        ensures
            r@ == step_error_text(self@),
    {
        match self {
            StepError::InsertNoSources => String::from_str("insert: `sources` is empty"),
            StepError::InsertNeedsDirectory { count } => {
                let n = usize_to_decimal(*count);
                String::from_str("insert: ").concat(n.as_str()).concat(
                    " sources but `directory` is false — must be true to use multiple sources",
                )
            },
            StepError::InsertSourceMissing { path } => {
                String::from_str("insert: source file does not exist: ").concat(path.as_str())
            },
            StepError::ReplacementMissing { path } => {
                String::from_str("replace: replacement file does not exist: ").concat(
                    path.as_str(),
                )
            },
            StepError::FieldMismatch { field, expected, actual } => {
                let e = debug_str(expected.as_str());
                let a = debug_str(actual.as_str());
                String::from_str("read-field assertion failed for `").concat(field.as_str()).concat(
                    "`:\n  expected: ",
                ).concat(e.as_str()).concat("\n    actual: ").concat(a.as_str())
            },
            StepError::Session { message } => message.clone(),
        }
    }
}

/// A failed run: which step failed, out of how many, and why.
#[derive(Debug)]
pub struct ApplyError {
    /// 1-based number of the failing step.
    pub step_num: usize,
    /// Number of steps in the plan.
    pub total: usize,
    /// The failing step's summary.
    pub summary: String,
    /// Whether the run was a dry run.
    pub dry_run: bool,
    /// The step's own error.
    pub cause: StepError,
}

pub struct ApplyErrorView {
    pub step_num: nat,
    pub total: nat,
    pub summary: Seq<char>,
    pub dry_run: bool,
    pub cause: StepErrorView,
}

impl View for ApplyError {
    type V = ApplyErrorView;

    open spec fn view(&self) -> ApplyErrorView {
        ApplyErrorView {
            step_num: self.step_num as nat,
            total: self.total as nat,
            summary: self.summary@,
            dry_run: self.dry_run,
            cause: self.cause@,
        }
    }
}

/// The text of a failed run: the step context, then the step's error.
pub open spec fn apply_error_text(e: ApplyErrorView) -> Seq<char> {
    "Step "@ + decimal(e.step_num) + " of "@ + decimal(e.total) + (if e.dry_run {
        " would fail ("@
    } else {
        " failed ("@
    }) + e.summary + "): "@ + step_error_text(e.cause)
}

impl ApplyError {
    /// The error's message: `Step N of M failed (summary): cause`.
    pub fn message(&self) -> (r: String)
        ensures
            r@ == apply_error_text(self@),
    {
        let n = usize_to_decimal(self.step_num);
        let m = usize_to_decimal(self.total);
        let cause = self.cause.message();
        let verdict = if self.dry_run {
            " would fail ("
        } else {
            " failed ("
        };
        String::from_str("Step ").concat(n.as_str()).concat(" of ").concat(m.as_str()).concat(
            verdict,
        ).concat(self.summary.as_str()).concat("): ").concat(cause.as_str())
    }
}


// ---------------------------------------------------------------------------
// Per-step decisions
// ---------------------------------------------------------------------------

/// A session operation that a (non-dry) run asks its driver to perform.
/// Local source paths are already resolved against the manifest directory;
/// package paths are passed through unchanged.
#[derive(Debug)]
pub enum SessionOp {
    RenamePackage { new_name: String },
    ReplaceSuite { new_suite: String },
    Reversion { new_version: String },
    Insert { dest: String, sources: Vec<String>, directory: bool },
    Remove { pattern: String },
    Move { source: String, destination: String },
    Replace { pattern: String, replacement: String },
    ReadField { field: String },
}

pub enum SessionOpView {
    RenamePackage { new_name: Seq<char> },
    ReplaceSuite { new_suite: Seq<char> },
    Reversion { new_version: Seq<char> },
    Insert { dest: Seq<char>, sources: Seq<Seq<char>>, directory: bool },
    Remove { pattern: Seq<char> },
    Move { source: Seq<char>, destination: Seq<char> },
    Replace { pattern: Seq<char>, replacement: Seq<char> },
    ReadField { field: Seq<char> },
}

impl View for SessionOp {
    type V = SessionOpView;

    open spec fn view(&self) -> SessionOpView {
        match self {
            SessionOp::RenamePackage { new_name } => SessionOpView::RenamePackage {
                new_name: new_name@,
            },
            SessionOp::ReplaceSuite { new_suite } => SessionOpView::ReplaceSuite {
                new_suite: new_suite@,
            },
            SessionOp::Reversion { new_version } => SessionOpView::Reversion {
                new_version: new_version@,
            },
            SessionOp::Insert { dest, sources, directory } => SessionOpView::Insert {
                dest: dest@,
                sources: sources.deep_view(),
                directory: *directory,
            },
            SessionOp::Remove { pattern } => SessionOpView::Remove { pattern: pattern@ },
            SessionOp::Move { source, destination } => SessionOpView::Move {
                source: source@,
                destination: destination@,
            },
            SessionOp::Replace { pattern, replacement } => SessionOpView::Replace {
                pattern: pattern@,
                replacement: replacement@,
            },
            SessionOp::ReadField { field } => SessionOpView::ReadField { field: field@ },
        }
    }
}

/// The session operation a step stands for, or the error that stops it
/// before the session is touched (`insert` with no sources).
pub open spec fn session_op_for(step: StepView, dir: Seq<char>) -> Result<
    SessionOpView,
    StepErrorView,
> {
    match step {
        StepView::RenamePackage { new_name } => Ok(SessionOpView::RenamePackage { new_name }),
        StepView::ReplaceSuite { new_suite } => Ok(SessionOpView::ReplaceSuite { new_suite }),
        StepView::Reversion { new_version, .. } => Ok(SessionOpView::Reversion { new_version }),
        StepView::Insert { dest, sources, directory } => if sources.len() == 0 {
            Err(StepErrorView::InsertNoSources)
        } else {
            Ok(
                SessionOpView::Insert {
                    dest,
                    sources: sources.map_values(|p: Seq<char>| resolved_path(dir, p)),
                    directory,
                },
            )
        },
        StepView::Remove { pattern } => Ok(SessionOpView::Remove { pattern }),
        StepView::Move { source, destination } => Ok(SessionOpView::Move { source, destination }),
        StepView::Replace { pattern, replacement } => Ok(
            SessionOpView::Replace { pattern, replacement: resolved_path(dir, replacement) },
        ),
        StepView::ReadField { field, .. } => Ok(SessionOpView::ReadField { field }),
    }
}

/// The session operation for `step`, with local source paths resolved
/// against `manifest_dir`. An `insert` with no sources fails here, before
/// anything is asked of the session.
pub fn apply_step(step: &Step, manifest_dir: &str) -> (r: Result<SessionOp, StepError>)
    ensures
        r matches Ok(op) ==> session_op_for(step@, manifest_dir@) == Ok::<_, StepErrorView>(op@),
        r matches Err(e) ==> session_op_for(step@, manifest_dir@) == Err::<SessionOpView, _>(e@),
{
    match step {
        Step::RenamePackage { new_name } => Ok(SessionOp::RenamePackage { new_name: new_name.clone() }),
        Step::ReplaceSuite { new_suite } => Ok(SessionOp::ReplaceSuite { new_suite: new_suite.clone() }),
        Step::Reversion { new_version, .. } => Ok(
            SessionOp::Reversion { new_version: new_version.clone() },
        ),
        Step::Insert { dest, sources, directory } => {
            if sources.len() == 0 {
                Err(StepError::InsertNoSources)
            } else {
                let resolved = resolve_all(manifest_dir, sources);
                Ok(SessionOp::Insert { dest: dest.clone(), sources: resolved, directory: *directory })
            }
        },
        Step::Remove { pattern } => Ok(SessionOp::Remove { pattern: pattern.clone() }),
        Step::Move { source, destination } => Ok(
            SessionOp::Move { source: source.clone(), destination: destination.clone() },
        ),
        Step::Replace { pattern, replacement } => Ok(
            SessionOp::Replace {
                pattern: pattern.clone(),
                replacement: resolve_local(manifest_dir, replacement.as_str()),
            },
        ),
        Step::ReadField { field, .. } => Ok(SessionOp::ReadField { field: field.clone() }),
    }
}

/// Dry-run validation of a step's shape: the local files that must exist
/// (resolved against `dir`), or the shape error. Only `insert` and
/// `replace` name local files; the other steps have nothing to check.
pub open spec fn probes_for(step: StepView, dir: Seq<char>) -> Result<
    Seq<Seq<char>>,
    StepErrorView,
> {
    match step {
        StepView::Insert { sources, directory, .. } => if sources.len() == 0 {
            Err(StepErrorView::InsertNoSources)
        } else if !directory && sources.len() > 1 {
            Err(StepErrorView::InsertNeedsDirectory { count: sources.len() })
        } else {
            Ok(sources.map_values(|p: Seq<char>| resolved_path(dir, p)))
        },
        StepView::Replace { replacement, .. } => Ok(seq![resolved_path(dir, replacement)]),
        _ => Ok(Seq::empty()),
    }
}

/// Dry-run validation of a step: checks what can be checked without
/// touching the session, and returns the local files (resolved against
/// `manifest_dir`) whose existence the step depends on.
pub fn check_step(step: &Step, manifest_dir: &str) -> (r: Result<Vec<String>, StepError>)
    ensures
        r matches Ok(paths) ==> probes_for(step@, manifest_dir@) == Ok::<_, StepErrorView>(
            paths.deep_view(),
        ),
        r matches Err(e) ==> probes_for(step@, manifest_dir@) == Err::<Seq<Seq<char>>, _>(e@),
{
    match step {
        Step::Insert { sources, directory, .. } => {
            if sources.len() == 0 {
                Err(StepError::InsertNoSources)
            } else if !*directory && sources.len() > 1 {
                Err(StepError::InsertNeedsDirectory { count: sources.len() })
            } else {
                Ok(resolve_all(manifest_dir, sources))
            }
        },
        Step::Replace { replacement, .. } => {
            let mut v: Vec<String> = Vec::new();
            v.push(resolve_local(manifest_dir, replacement.as_str()));
            assert(v.deep_view() =~= seq![resolved_path(manifest_dir@, replacement@)]);
            Ok(v)
        },
        _ => {
            let v: Vec<String> = Vec::new();
            assert(v.deep_view() =~= Seq::<Seq<char>>::empty());
            Ok(v)
        },
    }
}

/// The index, at `k` or later, of the first of `n` local files not reported
/// present. A file counts as present only when `present` holds `true` at its
/// index.
pub open spec fn first_missing(n: nat, present: Seq<bool>, k: nat) -> Option<nat>
    decreases n - k,
{
    if k >= n {
        None
    } else if !(k < present.len() && present[k as int]) {
        Some(k)
    } else {
        first_missing(n, present, k + 1)
    }
}

/// The error for a local file of `step` that does not exist.
pub open spec fn missing_error(step: StepView, path: Seq<char>) -> StepErrorView {
    match step {
        StepView::Replace { .. } => StepErrorView::ReplacementMissing { path },
        _ => StepErrorView::InsertSourceMissing { path },
    }
}

/// The dry-run verdict for `step` once the existence of its local files is
/// known: the shape error, else the first missing file, else success.
pub open spec fn probe_verdict_of(step: StepView, dir: Seq<char>, present: Seq<bool>) -> Result<
    (),
    StepErrorView,
> {
    match probes_for(step, dir) {
        Err(e) => Err(e),
        Ok(paths) => match first_missing(paths.len(), present, 0) {
            Some(k) => Err(missing_error(step, paths[k as int])),
            None => Ok(()),
        },
    }
}

/// Judges a dry-run step from the existence answers for the files that
/// [`check_step`] returned, in the same order.
pub fn probe_verdict(step: &Step, manifest_dir: &str, present: &Vec<bool>) -> (r: Result<
    (),
    StepError,
>)
    ensures
        r matches Ok(_) ==> probe_verdict_of(step@, manifest_dir@, present@) == Ok::<
            (),
            StepErrorView,
        >(()),
        r matches Err(e) ==> probe_verdict_of(step@, manifest_dir@, present@) == Err::<(), _>(
            e@,
        ),
{
    let paths = match check_step(step, manifest_dir) {
        Ok(paths) => paths,
        Err(e) => return Err(e),
    };
    let ghost pv = paths.deep_view();
    let mut k: usize = 0;
    while k < paths.len()
        invariant
            k <= paths.len(),
            pv == paths.deep_view(),
            probes_for(step@, manifest_dir@) == Ok::<_, StepErrorView>(pv),
            first_missing(pv.len(), present@, 0) == first_missing(pv.len(), present@, k as nat),
        decreases paths.len() - k,
    {
        if k >= present.len() || !present[k] {
            let path = paths[k].clone();
            assert(path@ == pv[k as int]);
            assert(first_missing(pv.len(), present@, k as nat) == Some(k as nat));
            return match step {
                Step::Replace { .. } => Err(StepError::ReplacementMissing { path }),
                _ => Err(StepError::InsertSourceMissing { path }),
            };
        }
        k = k + 1;
    }
    Ok(())
}


// ---------------------------------------------------------------------------
// The run
// ---------------------------------------------------------------------------

/// Where a run stands.
#[derive(Debug, Clone, Copy, PartialEq, Eq, Structural)]
pub enum Progress {
    /// Nothing has happened yet.
    Start,
    /// Waiting for the outcome of the request made for step `step` (0-based).
    Awaiting { step: usize },
    /// The run has finished; no further events are accepted.
    Finished,
}

/// What the driver reports back after carrying out the last request.
#[derive(Debug)]
pub enum Event {
    /// The run is being started.
    Start,
    /// The session operation succeeded (for `remove`/`replace`, whatever
    /// the number of files touched).
    Completed,
    /// `read_field` succeeded with this value.
    FieldRead { value: String },
    /// For each probed local path, in request order, whether it is an
    /// existing regular file.
    Probed { present: Vec<bool> },
    /// The session operation failed with this message.
    Failed { message: String },
}

pub enum EventView {
    Start,
    Completed,
    FieldRead { value: Seq<char> },
    Probed { present: Seq<bool> },
    Failed { message: Seq<char> },
}

impl View for Event {
    type V = EventView;

    open spec fn view(&self) -> EventView {
        match self {
            Event::Start => EventView::Start,
            Event::Completed => EventView::Completed,
            Event::FieldRead { value } => EventView::FieldRead { value: value@ },
            Event::Probed { present } => EventView::Probed { present: present@ },
            Event::Failed { message } => EventView::Failed { message: message@ },
        }
    }
}

/// What the run asks of its driver next.
#[derive(Debug)]
pub enum Action {
    /// Perform `op` on the session for step `step` (0-based), then report
    /// `Completed` (`FieldRead` for `read-field`) or `Failed`.
    Perform { step: usize, op: SessionOp },
    /// Dry run: check step `step` by reporting, as `Probed`, whether each of
    /// `paths` (possibly none) is an existing regular file; a directory or a
    /// missing path counts as absent.
    Probe { step: usize, paths: Vec<String> },
    /// The run is over, with this result.
    Finish { result: Result<(), ApplyError> },
}

pub enum ActionView {
    Perform { step: nat, op: SessionOpView },
    Probe { step: nat, paths: Seq<Seq<char>> },
    Finish { result: Result<(), ApplyErrorView> },
}

impl View for Action {
    type V = ActionView;

    open spec fn view(&self) -> ActionView {
        match self {
            Action::Perform { step, op } => ActionView::Perform { step: *step as nat, op: op@ },
            Action::Probe { step, paths } => ActionView::Probe {
                step: *step as nat,
                paths: paths.deep_view(),
            },
            Action::Finish { result } => ActionView::Finish {
                result: match result {
                    Ok(()) => Ok(()),
                    Err(e) => Err(e@),
                },
            },
        }
    }
}

/// Whether `event` is a fitting answer to the request made for `step`:
/// a failure, or else `Probed` in a dry run, `FieldRead` for `read-field`,
/// and `Completed` for the other operations.
pub open spec fn event_fits(step: StepView, dry_run: bool, event: EventView) -> bool {
    match event {
        EventView::Failed { .. } => true,
        EventView::Probed { .. } => dry_run,
        EventView::FieldRead { .. } => !dry_run && step is ReadField,
        EventView::Completed => !dry_run && !(step is ReadField),
        EventView::Start => false,
    }
}

/// The outcome of a step given the driver's answer: a failed operation
/// fails the step with its message; a dry run judges the existence
/// answers; a `read-field` with an expectation fails unless the value read
/// is exactly the expected one; everything else succeeds.
pub open spec fn step_verdict(step: StepView, dir: Seq<char>, dry_run: bool, event: EventView) -> Result<
    (),
    StepErrorView,
> {
    match event {
        EventView::Failed { message } => Err(StepErrorView::Session { message }),
        EventView::Probed { present } => probe_verdict_of(step, dir, present),
        EventView::FieldRead { value } => match step {
            StepView::ReadField { field, expected: Some(e) } => if value == e {
                Ok(())
            } else {
                Err(StepErrorView::FieldMismatch { field, expected: e, actual: value })
            },
            _ => Ok(()),
        },
        _ => Ok(()),
    }
}

/// The error of a run whose step `i` failed with `cause`.
pub open spec fn run_failure(plan: PlanView, i: nat, dry_run: bool, cause: StepErrorView) -> ApplyErrorView {
    ApplyErrorView {
        step_num: i + 1,
        total: plan.steps.len(),
        summary: summary_text(plan.steps[i as int]),
        dry_run,
        cause,
    }
}

/// Starting step `i`: finish successfully when no steps are left;
/// otherwise fail at once when the step cannot even be asked for, or make
/// its request (a session operation, or in a dry run the probe of its local
/// files) and wait for the outcome.
pub open spec fn launch(plan: PlanView, dir: Seq<char>, dry_run: bool, i: nat) -> (Progress, ActionView) {
    if i >= plan.steps.len() {
        (Progress::Finished, ActionView::Finish { result: Ok(()) })
    } else if dry_run {
        match probes_for(plan.steps[i as int], dir) {
            Err(e) => (
                Progress::Finished,
                ActionView::Finish { result: Err(run_failure(plan, i, dry_run, e)) },
            ),
            Ok(paths) => (Progress::Awaiting { step: i as usize }, ActionView::Probe { step: i, paths }),
        }
    } else {
        match session_op_for(plan.steps[i as int], dir) {
            Err(e) => (
                Progress::Finished,
                ActionView::Finish { result: Err(run_failure(plan, i, dry_run, e)) },
            ),
            Ok(op) => (Progress::Awaiting { step: i as usize }, ActionView::Perform { step: i, op }),
        }
    }
}

/// One move of the run: from the start, launch the first step; while
/// awaiting step `i`, end the run with an error naming step `i` if its
/// verdict is a failure, otherwise launch step `i + 1`.
pub open spec fn transition(
    plan: PlanView,
    dir: Seq<char>,
    dry_run: bool,
    progress: Progress,
    event: EventView,
) -> (Progress, ActionView) {
    match progress {
        Progress::Start => launch(plan, dir, dry_run, 0),
        Progress::Awaiting { step } => match step_verdict(plan.steps[step as int], dir, dry_run, event) {
            Err(e) => (
                Progress::Finished,
                ActionView::Finish { result: Err(run_failure(plan, step as nat, dry_run, e)) },
            ),
            Ok(()) => launch(plan, dir, dry_run, step as nat + 1),
        },
        Progress::Finished => (Progress::Finished, ActionView::Finish { result: Ok(()) }),
    }
}

/// Whether `apply` accepts `event` in `progress`: not after the run has
/// finished, and while awaiting a step only a fitting answer to it.
pub open spec fn accepts(plan: PlanView, dry_run: bool, progress: Progress, event: EventView) -> bool {
    match progress {
        Progress::Start => true,
        Progress::Awaiting { step } => step < plan.steps.len() && event_fits(
            plan.steps[step as int],
            dry_run,
            event,
        ),
        Progress::Finished => false,
    }
}

fn fail_at(plan: &Plan, i: usize, dry_run: bool, cause: StepError) -> (r: ApplyError)
    requires
        i < plan.steps.len(),
    ensures
        r@ == run_failure(plan@, i as nat, dry_run, cause@),
{
    ApplyError {
        step_num: i + 1,
        total: plan.steps.len(),
        summary: plan.steps[i].summary(),
        dry_run,
        cause,
    }
}

fn launch_from(plan: &Plan, manifest_dir: &str, dry_run: bool, i: usize) -> (r: (Progress, Action))
    requires
        i <= plan.steps.len(),
    ensures
        (r.0, r.1@) == launch(plan@, manifest_dir@, dry_run, i as nat),
{
    if i >= plan.steps.len() {
        return (Progress::Finished, Action::Finish { result: Ok(()) });
    }
    let step = &plan.steps[i];
    assert(plan@.steps[i as int] == step@);
    if dry_run {
        match check_step(step, manifest_dir) {
            Err(e) => {
                let err = fail_at(plan, i, dry_run, e);
                (Progress::Finished, Action::Finish { result: Err(err) })
            },
            Ok(paths) => (Progress::Awaiting { step: i }, Action::Probe { step: i, paths }),
        }
    } else {
        match apply_step(step, manifest_dir) {
            Err(e) => {
                let err = fail_at(plan, i, dry_run, e);
                (Progress::Finished, Action::Finish { result: Err(err) })
            },
            Ok(op) => (Progress::Awaiting { step: i }, Action::Perform { step: i, op }),
        }
    }
}

fn verdict(step: &Step, manifest_dir: &str, dry_run: bool, event: &Event) -> (r: Result<(), StepError>)
    ensures
        r matches Ok(_) ==> step_verdict(step@, manifest_dir@, dry_run, event@) == Ok::<
            (),
            StepErrorView,
        >(()),
        r matches Err(e) ==> step_verdict(step@, manifest_dir@, dry_run, event@) == Err::<(), _>(
            e@,
        ),
{
    match event {
        Event::Failed { message } => Err(StepError::Session { message: message.clone() }),
        Event::Probed { present } => probe_verdict(step, manifest_dir, present),
        Event::FieldRead { value } => match step {
            Step::ReadField { field, expected: Some(e) } => {
                if *value == *e {
                    Ok(())
                } else {
                    Err(
                        StepError::FieldMismatch {
                            field: field.clone(),
                            expected: e.clone(),
                            actual: value.clone(),
                        },
                    )
                }
            },
            _ => Ok(()),
        },
        _ => Ok(()),
    }
}

/// Whether `apply` accepts `event` in `progress` (see [`accepts`]).
pub fn accepts_event(plan: &Plan, dry_run: bool, progress: Progress, event: &Event) -> (b: bool)
    ensures
        b == accepts(plan@, dry_run, progress, event@),
{
    match progress {
        Progress::Start => true,
        Progress::Awaiting { step } => {
            if step >= plan.steps.len() {
                return false;
            }
            let is_read = match &plan.steps[step] {
                Step::ReadField { .. } => true,
                _ => false,
            };
            match event {
                Event::Failed { .. } => true,
                Event::Probed { .. } => dry_run,
                Event::FieldRead { .. } => !dry_run && is_read,
                Event::Completed => !dry_run && !is_read,
                Event::Start => false,
            }
        },
        Progress::Finished => false,
    }
}

/// Runs `plan` one move at a time. Start with `Progress::Start` and
/// `Event::Start`; after each `Perform` or `Probe` action, carry it out and
/// call again with the returned progress and the outcome; stop at `Finish`.
/// `manifest_dir` resolves relative local source paths; with `dry_run` the
/// session is never asked to change.
pub fn apply(
    plan: &Plan,
    manifest_dir: &str,
    dry_run: bool,
    progress: Progress,
    event: Event,
) -> (r: (Progress, Action))
    requires
        accepts(plan@, dry_run, progress, event@),
    ensures
        (r.0, r.1@) == transition(plan@, manifest_dir@, dry_run, progress, event@),
{
    match progress {
        Progress::Start => launch_from(plan, manifest_dir, dry_run, 0),
        Progress::Awaiting { step } => {
            assert(plan@.steps.len() == plan.steps.len());
            match verdict(&plan.steps[step], manifest_dir, dry_run, &event) {
                Err(e) => {
                    let err = fail_at(plan, step, dry_run, e);
                    (Progress::Finished, Action::Finish { result: Err(err) })
                },
                Ok(()) => launch_from(plan, manifest_dir, dry_run, step + 1),
            }
        },
        Progress::Finished => (Progress::Finished, Action::Finish { result: Ok(()) }),
    }
}

} // verus!
