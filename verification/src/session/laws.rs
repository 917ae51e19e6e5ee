//! What holds of whole runs of [`apply`](super::apply::apply): the order in
//! which steps are requested, what a dry run may ask for, and how a run ends.
use vstd::prelude::*;

use super::apply::{
    first_missing, missing_error, probe_verdict_of, probes_for, resolved_path, run_failure,
    session_op_for, step_verdict, transition, ActionView, EventView, Progress, SessionOpView,
    StepErrorView,
};
use super::plan::{summary_text, PlanView, StepView};

verus! {

/// The actions a run produces when started from `progress` with `event`
/// and then fed `answers` one by one; it stops at the first `Finish`.
pub open spec fn trace(
    plan: PlanView,
    dir: Seq<char>,
    dry_run: bool,
    progress: Progress,
    event: EventView,
    answers: Seq<EventView>,
) -> Seq<ActionView>
    decreases answers.len(),
{
    let r = transition(plan, dir, dry_run, progress, event);
    if answers.len() == 0 || r.0 is Finished {
        seq![r.1]
    } else {
        seq![r.1] + trace(plan, dir, dry_run, r.0, answers[0], answers.drop_first())
    }
}

/// The error, if any, that stops step `k` before its request is made: in a
/// dry run a malformed step, otherwise an `insert` with no sources.
pub open spec fn launch_error(plan: PlanView, dir: Seq<char>, dry_run: bool, k: int) -> Option<
    StepErrorView,
> {
    if dry_run {
        match probes_for(plan.steps[k], dir) {
            Err(e) => Some(e),
            Ok(_) => None,
        }
    } else {
        match session_op_for(plan.steps[k], dir) {
            Err(e) => Some(e),
            Ok(_) => None,
        }
    }
}

/// The request a run makes for step `k` (when it gets that far): the
/// step's session operation, or in a dry run the probe of its local files.
pub open spec fn planned_request(plan: PlanView, dir: Seq<char>, dry_run: bool, k: int) -> ActionView {
    if dry_run {
        ActionView::Probe {
            step: k as nat,
            paths: match probes_for(plan.steps[k], dir) {
                Ok(paths) => paths,
                Err(_) => arbitrary(),
            },
        }
    } else {
        ActionView::Perform {
            step: k as nat,
            op: match session_op_for(plan.steps[k], dir) {
                Ok(op) => op,
                Err(_) => arbitrary(),
            },
        }
    }
}

/// The requests for steps `from`, `from + 1`, …, `to - 1`, in order.
pub open spec fn requests(plan: PlanView, dir: Seq<char>, dry_run: bool, from: nat, to: nat) -> Seq<
    ActionView,
> {
    Seq::new((to - from) as nat, |j: int| planned_request(plan, dir, dry_run, from + j))
}

/// How step `k` turns out when its request is answered with `answer`: the
/// error that stops it before the request, else the verdict on the answer.
pub open spec fn step_outcome(
    plan: PlanView,
    dir: Seq<char>,
    dry_run: bool,
    k: int,
    answer: EventView,
) -> Result<(), StepErrorView> {
    match launch_error(plan, dir, dry_run, k) {
        Some(e) => Err(e),
        None => step_verdict(plan.steps[k], dir, dry_run, answer),
    }
}

/// A dry run never asks for a session operation: whatever the progress and
/// the event, the next action is a probe or the end of the run.
pub proof fn law_dry_run_never_touches_session(
    plan: PlanView,
    dir: Seq<char>,
    progress: Progress,
    event: EventView,
)
    ensures
        !(transition(plan, dir, true, progress, event).1 is Perform),
{
}

/// Over a whole dry run, whatever the answers, no action is a session
/// operation: the session is left unchanged.
pub proof fn law_dry_run_trace_never_touches_session(
    plan: PlanView,
    dir: Seq<char>,
    progress: Progress,
    event: EventView,
    answers: Seq<EventView>,
)
    ensures
        forall|j: int|
            0 <= j < trace(plan, dir, true, progress, event, answers).len() ==> !(#[trigger] trace(
                plan,
                dir,
                true,
                progress,
                event,
                answers,
            )[j] is Perform),
    decreases answers.len(),
{
    law_dry_run_never_touches_session(plan, dir, progress, event);
    let r = transition(plan, dir, true, progress, event);
    if !(answers.len() == 0 || r.0 is Finished) {
        law_dry_run_trace_never_touches_session(plan, dir, r.0, answers[0], answers.drop_first());
    }
}

/// An empty plan is a valid no-op: the run finishes successfully at once,
/// dry or not.
pub proof fn law_empty_plan_is_noop(plan: PlanView, dir: Seq<char>, dry_run: bool, event: EventView)
    requires
        plan.steps.len() == 0,
    ensures
        transition(plan, dir, dry_run, Progress::Start, event) == (
            Progress::Finished,
            ActionView::Finish { result: Ok(()) },
        ),
{
}

/// The step from which a run goes on after `progress`: the first step at
/// the start, the one after the awaited step otherwise.
pub open spec fn resume_from(plan: PlanView, progress: Progress) -> nat {
    match progress {
        Progress::Start => 0,
        Progress::Awaiting { step } => step as nat + 1,
        Progress::Finished => plan.steps.len(),
    }
}

/// Steps are taken one after another in plan order, none skipped. After
/// the start, or after a step that succeeded, the run either requests
/// exactly the next step (its session operation, or in a dry run its local
/// files) and waits for it, fails at once with an error naming that step,
/// or, when no step is left, finishes successfully.
pub proof fn law_steps_run_in_order(
    plan: PlanView,
    dir: Seq<char>,
    dry_run: bool,
    progress: Progress,
    event: EventView,
)
    requires
        plan.steps.len() <= usize::MAX,
        progress matches Progress::Awaiting { step } ==> step < plan.steps.len()
            && step_verdict(plan.steps[step as int], dir, dry_run, event) is Ok,
        !(progress is Finished),
    ensures
        ({
            let i = resume_from(plan, progress);
            let r = transition(plan, dir, dry_run, progress, event);
            if i == plan.steps.len() {
                r == (Progress::Finished, ActionView::Finish { result: Ok(()) })
            } else {
                match launch_error(plan, dir, dry_run, i as int) {
                    Some(e) => r == (
                        Progress::Finished,
                        ActionView::Finish { result: Err(run_failure(plan, i, dry_run, e)) },
                    ),
                    None => r == (
                        Progress::Awaiting { step: i as usize },
                        planned_request(plan, dir, dry_run, i as int),
                    ),
                }
            }
        }),
{
}

/// A step's failure ends the run at once, with an error naming that step
/// (its 1-based number, the plan's total, its summary) and carrying its
/// cause.
pub proof fn law_failure_ends_run(
    plan: PlanView,
    dir: Seq<char>,
    dry_run: bool,
    step: usize,
    event: EventView,
    cause: StepErrorView,
)
    requires
        step_verdict(plan.steps[step as int], dir, dry_run, event) == Err::<(), _>(cause),
    ensures
        transition(plan, dir, dry_run, Progress::Awaiting { step }, event) == (
            Progress::Finished,
            ActionView::Finish { result: Err(run_failure(plan, step as nat, dry_run, cause)) },
        ),
        run_failure(plan, step as nat, dry_run, cause).step_num == step + 1,
        run_failure(plan, step as nat, dry_run, cause).total == plan.steps.len(),
        run_failure(plan, step as nat, dry_run, cause).summary == summary_text(
            plan.steps[step as int],
        ),
{
}

/// A `read-field` step with an expectation passes exactly when the value
/// read equals the expected one; otherwise it fails with both values.
pub proof fn law_read_field_assertion(
    field: Seq<char>,
    expected: Seq<char>,
    value: Seq<char>,
    dir: Seq<char>,
)
    ensures
        step_verdict(
            StepView::ReadField { field, expected: Some(expected) },
            dir,
            false,
            EventView::FieldRead { value },
        ) == if value == expected {
            Ok(())
        } else {
            Err(StepErrorView::FieldMismatch { field, expected, actual: value })
        },
{
}

proof fn lemma_succeeds_from(
    plan: PlanView,
    dir: Seq<char>,
    dry_run: bool,
    answers: Seq<EventView>,
    i: nat,
)
    requires
        plan.steps.len() <= usize::MAX,
        1 <= i <= plan.steps.len(),
        answers.len() >= plan.steps.len(),
        forall|k: int|
            0 <= k < plan.steps.len() ==> #[trigger] step_outcome(plan, dir, dry_run, k, answers[k]) is Ok,
    ensures
        trace(
            plan,
            dir,
            dry_run,
            Progress::Awaiting { step: (i - 1) as usize },
            answers[i - 1],
            answers.subrange(i as int, answers.len() as int),
        ) == requests(plan, dir, dry_run, i, plan.steps.len()) + seq![
            ActionView::Finish { result: Ok(()) },
        ],
    decreases plan.steps.len() - i,
{
    let n = plan.steps.len();
    assert(step_outcome(plan, dir, dry_run, i - 1, answers[i - 1]) is Ok);
    let rest = answers.subrange(i as int, answers.len() as int);
    if i < n {
        assert(step_outcome(plan, dir, dry_run, i as int, answers[i as int]) is Ok);
        lemma_succeeds_from(plan, dir, dry_run, answers, i + 1);
        assert(rest[0] == answers[i as int]);
        assert(rest.drop_first() =~= answers.subrange((i + 1) as int, answers.len() as int));
        assert(requests(plan, dir, dry_run, i, n) =~= seq![
            planned_request(plan, dir, dry_run, i as int),
        ] + requests(plan, dir, dry_run, i + 1, n));
    } else {
        assert(requests(plan, dir, dry_run, i, n) =~= Seq::empty());
    }
}

/// A run in which every step succeeds makes each step's request exactly
/// once, in plan order, and then finishes successfully: "one process, one
/// outcome".
pub proof fn law_run_completes_when_every_step_succeeds(
    plan: PlanView,
    dir: Seq<char>,
    dry_run: bool,
    answers: Seq<EventView>,
)
    requires
        plan.steps.len() <= usize::MAX,
        answers.len() >= plan.steps.len(),
        forall|k: int|
            0 <= k < plan.steps.len() ==> #[trigger] step_outcome(plan, dir, dry_run, k, answers[k]) is Ok,
    ensures
        trace(plan, dir, dry_run, Progress::Start, EventView::Start, answers) == requests(
            plan,
            dir,
            dry_run,
            0,
            plan.steps.len(),
        ) + seq![ActionView::Finish { result: Ok(()) }],
{
    let n = plan.steps.len();
    if n == 0 {
        assert(requests(plan, dir, dry_run, 0, n) =~= Seq::empty());
    } else {
        assert(step_outcome(plan, dir, dry_run, 0, answers[0]) is Ok);
        lemma_succeeds_from(plan, dir, dry_run, answers, 1);
        assert(answers.drop_first() =~= answers.subrange(1, answers.len() as int));
        assert(requests(plan, dir, dry_run, 0, n) =~= seq![
            planned_request(plan, dir, dry_run, 0),
        ] + requests(plan, dir, dry_run, 1, n));
    }
}

/// The actions of a run whose step `k` is the first to fail with `e`: the
/// requests for the steps before it, the request for step `k` itself unless
/// it failed before it could be made, and the error naming step `k`.
pub open spec fn failing_trace(
    plan: PlanView,
    dir: Seq<char>,
    dry_run: bool,
    k: nat,
    e: StepErrorView,
) -> Seq<ActionView> {
    requests(
        plan,
        dir,
        dry_run,
        0,
        if launch_error(plan, dir, dry_run, k as int) is None {
            k + 1
        } else {
            k
        },
    ) + seq![ActionView::Finish { result: Err(run_failure(plan, k, dry_run, e)) }]
}

proof fn lemma_fails_from(
    plan: PlanView,
    dir: Seq<char>,
    dry_run: bool,
    answers: Seq<EventView>,
    k: nat,
    e: StepErrorView,
    i: nat,
)
    requires
        plan.steps.len() <= usize::MAX,
        1 <= i <= k < plan.steps.len(),
        answers.len() > k,
        forall|j: int| 0 <= j < k ==> #[trigger] step_outcome(plan, dir, dry_run, j, answers[j]) is Ok,
        step_outcome(plan, dir, dry_run, k as int, answers[k as int]) == Err::<(), _>(e),
    ensures
        trace(
            plan,
            dir,
            dry_run,
            Progress::Awaiting { step: (i - 1) as usize },
            answers[i - 1],
            answers.subrange(i as int, answers.len() as int),
        ) == requests(
            plan,
            dir,
            dry_run,
            i,
            if launch_error(plan, dir, dry_run, k as int) is None {
                k + 1
            } else {
                k
            },
        ) + seq![ActionView::Finish { result: Err(run_failure(plan, k, dry_run, e)) }],
    decreases k - i,
{
    let end = if launch_error(plan, dir, dry_run, k as int) is None {
        k + 1
    } else {
        k
    };
    assert(step_outcome(plan, dir, dry_run, i - 1, answers[i - 1]) is Ok);
    let rest = answers.subrange(i as int, answers.len() as int);
    assert(rest[0] == answers[i as int]);
    assert(rest.drop_first() =~= answers.subrange((i + 1) as int, answers.len() as int));
    if i < k {
        assert(step_outcome(plan, dir, dry_run, i as int, answers[i as int]) is Ok);
        lemma_fails_from(plan, dir, dry_run, answers, k, e, i + 1);
        assert(requests(plan, dir, dry_run, i, end) =~= seq![
            planned_request(plan, dir, dry_run, i as int),
        ] + requests(plan, dir, dry_run, i + 1, end));
    } else if launch_error(plan, dir, dry_run, k as int) is None {
        assert(trace(
            plan,
            dir,
            dry_run,
            Progress::Awaiting { step: k as usize },
            answers[k as int],
            rest.drop_first(),
        ) == seq![ActionView::Finish { result: Err(run_failure(plan, k, dry_run, e)) }]);
        assert(requests(plan, dir, dry_run, i, end) =~= seq![
            planned_request(plan, dir, dry_run, i as int),
        ]);
    } else {
        assert(requests(plan, dir, dry_run, i, end) =~= Seq::empty());
    }
}

/// A run stops at its first failing step `k`: the steps before it are
/// requested in order, step `k` is requested only if it got that far, no
/// later step is touched, and the run's error names step `k` (number
/// `k + 1` of the plan's total) with its summary and cause.
pub proof fn law_run_stops_at_first_failure(
    plan: PlanView,
    dir: Seq<char>,
    dry_run: bool,
    answers: Seq<EventView>,
    k: nat,
    e: StepErrorView,
)
    requires
        plan.steps.len() <= usize::MAX,
        k < plan.steps.len(),
        answers.len() > k,
        forall|j: int| 0 <= j < k ==> #[trigger] step_outcome(plan, dir, dry_run, j, answers[j]) is Ok,
        step_outcome(plan, dir, dry_run, k as int, answers[k as int]) == Err::<(), _>(e),
    ensures
        trace(plan, dir, dry_run, Progress::Start, EventView::Start, answers) == failing_trace(
            plan,
            dir,
            dry_run,
            k,
            e,
        ),
{
    let end = if launch_error(plan, dir, dry_run, k as int) is None {
        k + 1
    } else {
        k
    };
    if k == 0 {
        if launch_error(plan, dir, dry_run, 0) is None {
            assert(trace(
                plan,
                dir,
                dry_run,
                Progress::Awaiting { step: 0 },
                answers[0],
                answers.drop_first(),
            ) == seq![ActionView::Finish { result: Err(run_failure(plan, 0, dry_run, e)) }]);
            assert(requests(plan, dir, dry_run, 0, end) =~= seq![
                planned_request(plan, dir, dry_run, 0),
            ]);
        } else {
            assert(requests(plan, dir, dry_run, 0, end) =~= Seq::empty());
        }
    } else {
        assert(step_outcome(plan, dir, dry_run, 0, answers[0]) is Ok);
        lemma_fails_from(plan, dir, dry_run, answers, k, e, 1);
        assert(answers.drop_first() =~= answers.subrange(1, answers.len() as int));
        assert(requests(plan, dir, dry_run, 0, end) =~= seq![
            planned_request(plan, dir, dry_run, 0),
        ] + requests(plan, dir, dry_run, 1, end));
    }
}


/// Whether the files `k .. n` are all reported present.
pub open spec fn all_present(present: Seq<bool>, k: nat, n: nat) -> bool {
    &&& (k < n ==> n <= present.len())
    &&& forall|j: int| k <= j < n ==> #[trigger] present[j]
}

proof fn lemma_first_missing(n: nat, present: Seq<bool>, k: nat)
    ensures
        first_missing(n, present, k) is None <==> all_present(present, k, n),
        first_missing(n, present, k) matches Some(m) ==> k <= m < n && !(m < present.len()
            && present[m as int]) && all_present(present, k, m),
    decreases n - k,
{
    if k < n {
        lemma_first_missing(n, present, k + 1);
        if !(k < present.len() && present[k as int]) {
            assert(first_missing(n, present, k) == Some(k));
            assert(all_present(present, k, k));
            if all_present(present, k, n) {
                assert(present[k as int]);
            }
        } else {
            assert(first_missing(n, present, k) == first_missing(n, present, k + 1));
            if let Some(m) = first_missing(n, present, k + 1) {
                assert(all_present(present, k, m));
            }
        }
    }
}

/// A dry-run step passes exactly when its shape is sound and every local
/// file it names is reported present; otherwise it fails on the shape, or
/// on the first missing file, which the error names.
pub proof fn law_dry_run_step_passes_iff_files_exist(
    step: StepView,
    dir: Seq<char>,
    present: Seq<bool>,
)
    ensures
        match probes_for(step, dir) {
            Err(e) => probe_verdict_of(step, dir, present) == Err::<(), _>(e),
            Ok(paths) => {
                &&& (probe_verdict_of(step, dir, present) is Ok <==> all_present(
                    present,
                    0,
                    paths.len(),
                ))
                &&& (probe_verdict_of(step, dir, present) matches Err(e) ==> exists|m: int|
                    0 <= m < paths.len() && !(m < present.len() && present[m]) && all_present(
                        present,
                        0,
                        m as nat,
                    ) && e == missing_error(step, #[trigger] paths[m]))
            },
        },
{
    if let Ok(paths) = probes_for(step, dir) {
        lemma_first_missing(paths.len(), present, 0);
        if let Some(m) = first_missing(paths.len(), present, 0) {
            assert(0 <= m < paths.len() && !(m < present.len() && present[m as int]));
            assert(probe_verdict_of(step, dir, present) == Err::<(), _>(
                missing_error(step, paths[m as int]),
            ));
        }
    }
}


/// A run depends on the plan's steps alone: two plans with the same steps
/// (whatever their descriptions) produce the same actions for the same
/// answers, and so the same session calls and the same result.
pub proof fn law_description_does_not_affect_runs(
    p1: PlanView,
    p2: PlanView,
    dir: Seq<char>,
    dry_run: bool,
    progress: Progress,
    event: EventView,
    answers: Seq<EventView>,
)
    requires
        p1.steps == p2.steps,
    ensures
        trace(p1, dir, dry_run, progress, event, answers) == trace(
            p2,
            dir,
            dry_run,
            progress,
            event,
            answers,
        ),
    decreases answers.len(),
{
    let r = transition(p1, dir, dry_run, progress, event);
    assert(r == transition(p2, dir, dry_run, progress, event));
    if !(answers.len() == 0 || r.0 is Finished) {
        law_description_does_not_affect_runs(
            p1,
            p2,
            dir,
            dry_run,
            r.0,
            answers[0],
            answers.drop_first(),
        );
    }
}


// ---------------------------------------------------------------------------
// Runs of a concatenated plan
// ---------------------------------------------------------------------------

/// The session operation an action asks for, if it asks for one.
pub open spec fn call_of(action: ActionView) -> Seq<SessionOpView> {
    match action {
        ActionView::Perform { op, .. } => seq![op],
        _ => Seq::empty(),
    }
}

/// The session operations asked for by a sequence of actions, in order.
pub open spec fn session_calls(t: Seq<ActionView>) -> Seq<SessionOpView>
    decreases t.len(),
{
    if t.len() == 0 {
        Seq::empty()
    } else {
        session_calls(t.drop_last()) + call_of(t.last())
    }
}

/// Whether a sequence of actions ends with a successful finish.
pub open spec fn ends_ok(t: Seq<ActionView>) -> bool {
    t.len() > 0 && t.last() == ActionView::Finish { result: Ok(()) }
}

/// The first step at `k` or later whose outcome is a failure.
pub open spec fn first_failure(
    plan: PlanView,
    dir: Seq<char>,
    dry_run: bool,
    answers: Seq<EventView>,
    k: nat,
) -> Option<nat>
    decreases plan.steps.len() - k,
{
    if k >= plan.steps.len() {
        None
    } else if step_outcome(plan, dir, dry_run, k as int, answers[k as int]) is Err {
        Some(k)
    } else {
        first_failure(plan, dir, dry_run, answers, k + 1)
    }
}

proof fn lemma_first_failure(
    plan: PlanView,
    dir: Seq<char>,
    dry_run: bool,
    answers: Seq<EventView>,
    k: nat,
)
    ensures
        first_failure(plan, dir, dry_run, answers, k) is None ==> forall|j: int|
            k <= j < plan.steps.len() ==> #[trigger] step_outcome(plan, dir, dry_run, j, answers[j]) is Ok,
        first_failure(plan, dir, dry_run, answers, k) matches Some(m) ==> {
            &&& k <= m < plan.steps.len()
            &&& step_outcome(plan, dir, dry_run, m as int, answers[m as int]) is Err
            &&& forall|j: int|
                k <= j < m ==> #[trigger] step_outcome(plan, dir, dry_run, j, answers[j]) is Ok
        },
    decreases plan.steps.len() - k,
{
    if k < plan.steps.len() {
        lemma_first_failure(plan, dir, dry_run, answers, k + 1);
    }
}

proof fn lemma_calls_append(x: Seq<ActionView>, y: Seq<ActionView>)
    ensures
        session_calls(x + y) == session_calls(x) + session_calls(y),
    decreases y.len(),
{
    if y.len() == 0 {
        assert(x + y =~= x);
        assert(session_calls(x) + session_calls(y) =~= session_calls(x));
    } else {
        lemma_calls_append(x, y.drop_last());
        assert((x + y).drop_last() =~= x + y.drop_last());
        assert((x + y).last() == y.last());
        assert(session_calls(x) + session_calls(y.drop_last()) + call_of(y.last()) =~= session_calls(
            x,
        ) + (session_calls(y.drop_last()) + call_of(y.last())));
    }
}

proof fn lemma_calls_of_finish(x: Seq<ActionView>, f: ActionView)
    requires
        f is Finish,
    ensures
        session_calls(x + seq![f]) == session_calls(x),
{
    assert((x + seq![f]).drop_last() =~= x);
    assert(session_calls(x) + call_of(f) =~= session_calls(x));
}

/// Steps `k < a.len()` of `a + b` are the steps of `a`; later ones those of
/// `b`, shifted.
pub open spec fn concatenates(c: PlanView, a: PlanView, b: PlanView) -> bool {
    c.steps == a.steps + b.steps
}

proof fn lemma_prefix_requests(
    c: PlanView,
    a: PlanView,
    b: PlanView,
    dir: Seq<char>,
    dry_run: bool,
    m: nat,
)
    requires
        concatenates(c, a, b),
        m <= a.steps.len(),
    ensures
        requests(c, dir, dry_run, 0, m) == requests(a, dir, dry_run, 0, m),
{
    assert forall|j: int| 0 <= j < m implies requests(c, dir, dry_run, 0, m)[j] == requests(
        a,
        dir,
        dry_run,
        0,
        m,
    )[j] by {
        assert(c.steps[j] == a.steps[j]);
    }
    assert(requests(c, dir, dry_run, 0, m) =~= requests(a, dir, dry_run, 0, m));
}

proof fn lemma_suffix_calls(
    c: PlanView,
    a: PlanView,
    b: PlanView,
    dir: Seq<char>,
    dry_run: bool,
    m: nat,
)
    requires
        concatenates(c, a, b),
        m <= b.steps.len(),
    ensures
        session_calls(requests(c, dir, dry_run, a.steps.len(), a.steps.len() + m)) == session_calls(
            requests(b, dir, dry_run, 0, m),
        ),
    decreases m,
{
    let n = a.steps.len();
    if m == 0 {
        assert(requests(c, dir, dry_run, n, n) =~= Seq::empty());
        assert(requests(b, dir, dry_run, 0, 0) =~= Seq::empty());
    } else {
        lemma_suffix_calls(c, a, b, dir, dry_run, (m - 1) as nat);
        let rc = requests(c, dir, dry_run, n, n + m);
        let rb = requests(b, dir, dry_run, 0, m);
        assert(rc.drop_last() =~= requests(c, dir, dry_run, n, (n + m - 1) as nat));
        assert(rb.drop_last() =~= requests(b, dir, dry_run, 0, (m - 1) as nat));
        assert(c.steps[n + m - 1] == b.steps[m - 1]);
        assert(call_of(rc.last()) == call_of(rb.last()));
    }
}

proof fn lemma_split_requests(plan: PlanView, dir: Seq<char>, dry_run: bool, p: nat, q: nat)
    ensures
        requests(plan, dir, dry_run, 0, p + q) == requests(plan, dir, dry_run, 0, p) + requests(
            plan,
            dir,
            dry_run,
            p,
            p + q,
        ),
{
    assert(requests(plan, dir, dry_run, 0, p + q) =~= requests(plan, dir, dry_run, 0, p)
        + requests(plan, dir, dry_run, p, p + q));
}

/// Running the concatenation of two plans is running the first and then,
/// only if it succeeded, the second: the same session operations are asked
/// for, in the same order, and the run succeeds exactly when both parts do.
/// The answers of the whole run are those of the first part followed by
/// those of the second.
pub proof fn law_concatenated_plan_runs_its_parts(
    c: PlanView,
    a: PlanView,
    b: PlanView,
    dir: Seq<char>,
    dry_run: bool,
    answers: Seq<EventView>,
)
    requires
        concatenates(c, a, b),
        c.steps.len() <= usize::MAX,
        answers.len() >= c.steps.len(),
    ensures
        ({
            let tc = trace(c, dir, dry_run, Progress::Start, EventView::Start, answers);
            let ta = trace(
                a,
                dir,
                dry_run,
                Progress::Start,
                EventView::Start,
                answers.take(a.steps.len() as int),
            );
            let tb = trace(
                b,
                dir,
                dry_run,
                Progress::Start,
                EventView::Start,
                answers.skip(a.steps.len() as int),
            );
            &&& session_calls(tc) == session_calls(ta) + if ends_ok(ta) {
                session_calls(tb)
            } else {
                Seq::empty()
            }
            &&& ends_ok(tc) <==> ends_ok(ta) && ends_ok(tb)
        }),
{
    let na = a.steps.len();
    let nb = b.steps.len();
    let nc = c.steps.len();
    let ansa = answers.take(na as int);
    let ansb = answers.skip(na as int);
    assert(nc == na + nb);
    // Each step of `c` turns out as the matching step of `a` or `b`.
    assert forall|k: int| 0 <= k < na implies #[trigger] step_outcome(
        c,
        dir,
        dry_run,
        k,
        answers[k],
    ) == step_outcome(a, dir, dry_run, k, ansa[k]) by {
        assert(c.steps[k] == a.steps[k]);
    }
    assert forall|k: int| na <= k < nc implies #[trigger] step_outcome(
        c,
        dir,
        dry_run,
        k,
        answers[k],
    ) == step_outcome(b, dir, dry_run, k - na, ansb[k - na]) by {
        assert(c.steps[k] == b.steps[k - na]);
    }
    lemma_first_failure(a, dir, dry_run, ansa, 0);
    lemma_first_failure(b, dir, dry_run, ansb, 0);
    let tc = trace(c, dir, dry_run, Progress::Start, EventView::Start, answers);
    let ta = trace(a, dir, dry_run, Progress::Start, EventView::Start, ansa);
    let tb = trace(b, dir, dry_run, Progress::Start, EventView::Start, ansb);
    let fin = ActionView::Finish { result: Ok(()) };
    match first_failure(a, dir, dry_run, ansa, 0) {
        Some(ka) => {
            let e = match step_outcome(a, dir, dry_run, ka as int, ansa[ka as int]) {
                Err(e) => e,
                Ok(_) => arbitrary(),
            };
            assert(step_outcome(c, dir, dry_run, ka as int, answers[ka as int]) == Err::<(), _>(e));
            assert forall|j: int| 0 <= j < ka implies #[trigger] step_outcome(
                c,
                dir,
                dry_run,
                j,
                answers[j],
            ) is Ok by {
                assert(step_outcome(a, dir, dry_run, j, ansa[j]) is Ok);
            }
            law_run_stops_at_first_failure(a, dir, dry_run, ansa, ka, e);
            law_run_stops_at_first_failure(c, dir, dry_run, answers, ka, e);
            assert(c.steps[ka as int] == a.steps[ka as int]);
            let end = if launch_error(a, dir, dry_run, ka as int) is None {
                ka + 1
            } else {
                ka
            };
            lemma_prefix_requests(c, a, b, dir, dry_run, end);
            lemma_calls_of_finish(
                requests(c, dir, dry_run, 0, end),
                ActionView::Finish { result: Err(run_failure(c, ka, dry_run, e)) },
            );
            lemma_calls_of_finish(
                requests(a, dir, dry_run, 0, end),
                ActionView::Finish { result: Err(run_failure(a, ka, dry_run, e)) },
            );
            assert(!ends_ok(ta));
            assert(!ends_ok(tc));
            assert(session_calls(ta) + Seq::<SessionOpView>::empty() =~= session_calls(ta));
        },
        None => {
            assert forall|j: int| 0 <= j < na implies #[trigger] step_outcome(
                a,
                dir,
                dry_run,
                j,
                ansa[j],
            ) is Ok by {}
            assert(a.steps.len() <= usize::MAX);
            law_run_completes_when_every_step_succeeds(a, dir, dry_run, ansa);
            lemma_calls_of_finish(requests(a, dir, dry_run, 0, na), fin);
            assert(ends_ok(ta));
            lemma_prefix_requests(c, a, b, dir, dry_run, na);
            match first_failure(b, dir, dry_run, ansb, 0) {
                Some(kb) => {
                    let e = match step_outcome(b, dir, dry_run, kb as int, ansb[kb as int]) {
                        Err(e) => e,
                        Ok(_) => arbitrary(),
                    };
                    let kc = na + kb;
                    assert(step_outcome(c, dir, dry_run, kc as int, answers[kc as int]) == Err::<
                        (),
                        _,
                    >(e));
                    assert forall|j: int| 0 <= j < kc implies #[trigger] step_outcome(
                        c,
                        dir,
                        dry_run,
                        j,
                        answers[j],
                    ) is Ok by {
                        if j < na {
                            assert(step_outcome(a, dir, dry_run, j, ansa[j]) is Ok);
                        } else {
                            assert(step_outcome(b, dir, dry_run, j - na, ansb[j - na]) is Ok);
                        }
                    }
                    assert(b.steps.len() <= usize::MAX);
                    law_run_stops_at_first_failure(b, dir, dry_run, ansb, kb, e);
                    law_run_stops_at_first_failure(c, dir, dry_run, answers, kc, e);
                    assert(c.steps[kc as int] == b.steps[kb as int]);
                    let endb = if launch_error(b, dir, dry_run, kb as int) is None {
                        kb + 1
                    } else {
                        kb
                    };
                    assert(launch_error(c, dir, dry_run, kc as int) == launch_error(
                        b,
                        dir,
                        dry_run,
                        kb as int,
                    ));
                    lemma_split_requests(c, dir, dry_run, na, endb);
                    lemma_suffix_calls(c, a, b, dir, dry_run, endb);
                    lemma_calls_append(
                        requests(c, dir, dry_run, 0, na),
                        requests(c, dir, dry_run, na, na + endb),
                    );
                    lemma_calls_of_finish(
                        requests(c, dir, dry_run, 0, na + endb),
                        ActionView::Finish { result: Err(run_failure(c, kc, dry_run, e)) },
                    );
                    lemma_calls_of_finish(
                        requests(b, dir, dry_run, 0, endb),
                        ActionView::Finish { result: Err(run_failure(b, kb, dry_run, e)) },
                    );
                    assert(!ends_ok(tb));
                    assert(!ends_ok(tc));
                },
                None => {
                    assert forall|j: int| 0 <= j < nc implies #[trigger] step_outcome(
                        c,
                        dir,
                        dry_run,
                        j,
                        answers[j],
                    ) is Ok by {
                        if j < na {
                            assert(step_outcome(a, dir, dry_run, j, ansa[j]) is Ok);
                        } else {
                            assert(step_outcome(b, dir, dry_run, j - na, ansb[j - na]) is Ok);
                        }
                    }
                    assert(b.steps.len() <= usize::MAX);
                    law_run_completes_when_every_step_succeeds(b, dir, dry_run, ansb);
                    law_run_completes_when_every_step_succeeds(c, dir, dry_run, answers);
                    lemma_split_requests(c, dir, dry_run, na, nb);
                    lemma_suffix_calls(c, a, b, dir, dry_run, nb);
                    lemma_calls_append(
                        requests(c, dir, dry_run, 0, na),
                        requests(c, dir, dry_run, na, na + nb),
                    );
                    lemma_calls_of_finish(requests(c, dir, dry_run, 0, nc), fin);
                    lemma_calls_of_finish(requests(b, dir, dry_run, 0, nb), fin);
                    assert(ends_ok(tb));
                    assert(ends_ok(tc));
                },
            }
        },
    }
}


// ---------------------------------------------------------------------------
// What each step asks for, and what makes it fail
// ---------------------------------------------------------------------------

/// A local path that starts with `/` is used as given; a relative one is
/// put under the manifest directory, with exactly one `/` between them
/// (none when the directory is empty, or already ends in `/`).
pub proof fn law_local_path_resolution(dir: Seq<char>, p: Seq<char>)
    ensures
        p.len() > 0 && p[0] == '/' ==> resolved_path(dir, p) == p,
        !(p.len() > 0 && p[0] == '/') && dir.len() == 0 ==> resolved_path(dir, p) == p,
        !(p.len() > 0 && p[0] == '/') && dir.len() > 0 && dir[dir.len() - 1] == '/' ==> resolved_path(
            dir,
            p,
        ) == dir + p,
        !(p.len() > 0 && p[0] == '/') && dir.len() > 0 && dir[dir.len() - 1] != '/' ==> resolved_path(
            dir,
            p,
        ) == dir + seq!['/'] + p,
{
    if dir.len() == 0 {
        assert(dir + p =~= p);
    }
}

/// Every step asks the session for its own verb with its own arguments:
/// package paths (`dest`, `pattern`, `source`, `destination`), names and
/// flags are passed through unchanged, in their roles; only local source
/// files (`insert` sources, the `replace` replacement) are resolved against
/// the manifest directory, one for one and in order. An `insert` with no
/// sources fails before the session is asked.
pub proof fn law_each_step_asks_for_its_own_operation(step: StepView, dir: Seq<char>)
    ensures
        match step {
            StepView::RenamePackage { new_name } => session_op_for(step, dir) == Ok::<
                _,
                StepErrorView,
            >(SessionOpView::RenamePackage { new_name }),
            StepView::ReplaceSuite { new_suite } => session_op_for(step, dir) == Ok::<
                _,
                StepErrorView,
            >(SessionOpView::ReplaceSuite { new_suite }),
            StepView::Reversion { new_version, .. } => session_op_for(step, dir) == Ok::<
                _,
                StepErrorView,
            >(SessionOpView::Reversion { new_version }),
            StepView::Insert { dest, sources, directory } => if sources.len() == 0 {
                session_op_for(step, dir) == Err::<SessionOpView, _>(StepErrorView::InsertNoSources)
            } else {
                session_op_for(step, dir) matches Ok(
                    SessionOpView::Insert { dest: d, sources: s, directory: f },
                ) && d == dest && f == directory && s.len() == sources.len() && forall|i: int|
                    0 <= i < sources.len() ==> #[trigger] s[i] == resolved_path(dir, sources[i])
            },
            StepView::Remove { pattern } => session_op_for(step, dir) == Ok::<_, StepErrorView>(
                SessionOpView::Remove { pattern },
            ),
            StepView::Move { source, destination } => session_op_for(step, dir) == Ok::<
                _,
                StepErrorView,
            >(SessionOpView::Move { source, destination }),
            StepView::Replace { pattern, replacement } => session_op_for(step, dir) == Ok::<
                _,
                StepErrorView,
            >(SessionOpView::Replace { pattern, replacement: resolved_path(dir, replacement) }),
            StepView::ReadField { field, .. } => session_op_for(step, dir) == Ok::<
                _,
                StepErrorView,
            >(SessionOpView::ReadField { field }),
        },
{
}

/// A dry run checks every local file a step names: the replacement of a
/// `replace`, and every source of an `insert`, each resolved against the
/// manifest directory, in order. An `insert` with no sources, or with
/// several but `directory` off, is rejected on its shape; the other steps
/// name no local file.
pub proof fn law_every_named_local_file_is_probed(step: StepView, dir: Seq<char>)
    ensures
        match step {
            StepView::Replace { replacement, .. } => probes_for(step, dir) == Ok::<
                _,
                StepErrorView,
            >(seq![resolved_path(dir, replacement)]),
            StepView::Insert { sources, directory, .. } => if sources.len() == 0 {
                probes_for(step, dir) == Err::<Seq<Seq<char>>, _>(StepErrorView::InsertNoSources)
            } else if !directory && sources.len() > 1 {
                probes_for(step, dir) == Err::<Seq<Seq<char>>, _>(
                    StepErrorView::InsertNeedsDirectory { count: sources.len() },
                )
            } else {
                probes_for(step, dir) matches Ok(paths) && paths.len() == sources.len() && forall|
                    i: int,
                | 0 <= i < sources.len() ==> #[trigger] paths[i] == resolved_path(dir, sources[i])
            },
            _ => probes_for(step, dir) == Ok::<_, StepErrorView>(Seq::<Seq<char>>::empty()),
        },
{
}

/// A failed session operation always fails its step, with the session's
/// message, whatever the step and whether or not the run is a dry run.
pub proof fn law_failed_operation_fails_step(
    step: StepView,
    dir: Seq<char>,
    dry_run: bool,
    message: Seq<char>,
)
    ensures
        step_verdict(step, dir, dry_run, EventView::Failed { message }) == Err::<(), _>(
            StepErrorView::Session { message },
        ),
{
}

/// A run in which some step fails never ends successfully.
pub proof fn law_failing_step_fails_run(
    plan: PlanView,
    dir: Seq<char>,
    dry_run: bool,
    answers: Seq<EventView>,
    k: nat,
)
    requires
        plan.steps.len() <= usize::MAX,
        k < plan.steps.len(),
        answers.len() > k,
        step_outcome(plan, dir, dry_run, k as int, answers[k as int]) is Err,
    ensures
        !ends_ok(trace(plan, dir, dry_run, Progress::Start, EventView::Start, answers)),
{
    lemma_first_failure(plan, dir, dry_run, answers, 0);
    match first_failure(plan, dir, dry_run, answers, 0) {
        Some(m) => {
            assert(m <= k) by {
                if m > k {
                    assert(step_outcome(plan, dir, dry_run, k as int, answers[k as int]) is Ok);
                }
            }
            let e = match step_outcome(plan, dir, dry_run, m as int, answers[m as int]) {
                Err(e) => e,
                Ok(_) => arbitrary(),
            };
            law_run_stops_at_first_failure(plan, dir, dry_run, answers, m, e);
        },
        None => {
            assert(step_outcome(plan, dir, dry_run, k as int, answers[k as int]) is Ok);
        },
    }
}

/// A run in which the session reports some step's operation as failed
/// never ends successfully: the failure is never counted as a success.
pub proof fn law_failed_operation_never_ends_ok(
    plan: PlanView,
    dir: Seq<char>,
    answers: Seq<EventView>,
    k: nat,
    message: Seq<char>,
)
    requires
        plan.steps.len() <= usize::MAX,
        k < plan.steps.len(),
        answers.len() > k,
        answers[k as int] == (EventView::Failed { message }),
    ensures
        !ends_ok(trace(plan, dir, false, Progress::Start, EventView::Start, answers)),
{
    law_failed_operation_fails_step(plan.steps[k as int], dir, false, message);
    law_failing_step_fails_run(plan, dir, false, answers, k);
}

/// A dry run in which one of the local files a step names is reported
/// absent never ends successfully.
pub proof fn law_missing_local_file_never_ends_ok(
    plan: PlanView,
    dir: Seq<char>,
    answers: Seq<EventView>,
    k: nat,
    present: Seq<bool>,
    j: int,
)
    requires
        plan.steps.len() <= usize::MAX,
        k < plan.steps.len(),
        answers.len() > k,
        answers[k as int] == (EventView::Probed { present }),
        probes_for(plan.steps[k as int], dir) matches Ok(paths) && 0 <= j < paths.len(),
        !(j < present.len() && present[j]),
    ensures
        !ends_ok(trace(plan, dir, true, Progress::Start, EventView::Start, answers)),
{
    let paths = match probes_for(plan.steps[k as int], dir) {
        Ok(paths) => paths,
        Err(_) => arbitrary(),
    };
    lemma_first_missing(paths.len(), present, 0);
    if all_present(present, 0, paths.len()) {
        assert(present[j]);
    }
    law_failing_step_fails_run(plan, dir, true, answers, k);
}

/// What a successful answer from the session means for a step of a real
/// run: a completed operation passes any step but `read-field`, and a value
/// read passes a `read-field` that expects nothing or exactly that value.
pub proof fn law_successful_answer_passes_step(step: StepView, dir: Seq<char>, value: Seq<char>)
    ensures
        !(step is ReadField) ==> step_verdict(step, dir, false, EventView::Completed) == Ok::<
            (),
            StepErrorView,
        >(()),
        step matches StepView::ReadField { expected: None, .. } ==> step_verdict(
            step,
            dir,
            false,
            EventView::FieldRead { value },
        ) == Ok::<(), StepErrorView>(()),
        step matches StepView::ReadField { expected: Some(e), .. } ==> (step_verdict(
            step,
            dir,
            false,
            EventView::FieldRead { value },
        ) is Ok <==> value == e),
{
}

/// The answer a session gives when every operation works and every field
/// read holds `value`.
pub open spec fn success_answer(step: StepView, value: Seq<char>) -> EventView {
    if step is ReadField {
        EventView::FieldRead { value }
    } else {
        EventView::Completed
    }
}

/// A real run whose every operation succeeds, and whose every read-field
/// expectation matches the value read, ends successfully, unless an
/// `insert` with no sources stops it first.
pub proof fn law_run_succeeds_when_session_succeeds(
    plan: PlanView,
    dir: Seq<char>,
    values: Seq<Seq<char>>,
)
    requires
        plan.steps.len() <= usize::MAX,
        values.len() == plan.steps.len(),
        forall|k: int|
            0 <= k < plan.steps.len() ==> !(#[trigger] plan.steps[k] matches StepView::Insert {
                sources,
                ..
            } && sources.len() == 0),
        forall|k: int|
            0 <= k < plan.steps.len() ==> (#[trigger] plan.steps[k] matches StepView::ReadField {
                expected: Some(e),
                ..
            } ==> e == values[k]),
    ensures
        ends_ok(
            trace(
                plan,
                dir,
                false,
                Progress::Start,
                EventView::Start,
                Seq::new(values.len(), |k: int| success_answer(plan.steps[k], values[k])),
            ),
        ),
{
    let answers = Seq::new(values.len(), |k: int| success_answer(plan.steps[k], values[k]));
    assert forall|k: int| 0 <= k < plan.steps.len() implies #[trigger] step_outcome(
        plan,
        dir,
        false,
        k,
        answers[k],
    ) is Ok by {
        let step = plan.steps[k];
        law_successful_answer_passes_step(step, dir, values[k]);
        law_each_step_asks_for_its_own_operation(step, dir);
    }
    law_run_completes_when_every_step_succeeds(plan, dir, false, answers);
}

} // verus!
