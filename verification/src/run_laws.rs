//! What a run makes of the engine's answers, and what it leaves in the document.

use vstd::prelude::*;

use crate::answer_laws::{law_applied_answer, says};
use crate::apply::{
    error_of, starts_with, ActionModel, ApplyStart, PlanModel, RunModel, RunPhase, StepModel,
};
use crate::apply_laws::{
    answers_left, carried_out, lemma_carried_out, place_named, text_at, WrittenPlace,
};
use crate::edit::{EngineFailure, ErrorModel, FailureModel};
use crate::json::{json_text, number, JsonTree};
use crate::laws::current_text;
use crate::model::DocumentCore;
use crate::plan_laws::{after_step, after_steps, law_plan_writes_every_value, lemma_after_both};
use crate::preflight::{preflight_of, LayoutModel, PreflightModel};
use crate::repeat_laws::passes;
use crate::report::{
    overflow_tree, rejection_tree, report_tree, warning_tree, FailureReason, RejectionModel,
};
use crate::request::EncodedRequest;

verus! {

/// What an engine answers to actions that it takes one after the other.
pub open spec fn replies<D>(
    document: D,
    actions: Seq<ActionModel>,
    engine: spec_fn(D, ActionModel) -> (D, Option<FailureModel>),
) -> Seq<Option<FailureModel>>
    decreases actions.len(),
{
    if actions.len() == 0 {
        seq![]
    } else {
        let answer = engine(document, actions[0]);
        seq![answer.1] + replies(answer.0, actions.drop_first(), engine)
    }
}

/// Whether an action belongs to carrying out a plan, and not to what follows it.
pub open spec fn of_the_plan(action: ActionModel) -> bool {
    action is BeginBatch || action is Edit || action is EndBatch
}

/// Whether the `k`th answer is the first error that ends the plan: it is an error, every answer
/// before it is none, and what follows is what a failure calls for. Where the batch did not begin,
/// the snapshot is discarded; else batch mode is left and the snapshot restored before that, and an
/// error of restoring it is kept.
pub open spec fn stopped_at(
    end: RunModel,
    actions: Seq<ActionModel>,
    answers: Seq<Option<FailureModel>>,
    snapshot: u32,
    k: int,
) -> bool {
    let discard = ActionModel::DiscardSnapshot { snapshot };
    &&& 0 <= k < actions.len()
    &&& forall|j: int| 0 <= j <= k ==> of_the_plan(#[trigger] actions[j])
    &&& forall|j: int| 0 <= j < k ==> (#[trigger] answers[j]) is None
    &&& answers[k] is Some
    &&& end.failure == answers[k]
    &&& actions[k] is BeginBatch ==> {
        &&& actions.len() == k + 2
        &&& actions[k + 1] == discard
        &&& end.rollback_failure is None
    }
    &&& !(actions[k] is BeginBatch) ==> {
        &&& actions.len() == k + 4
        &&& actions[k + 1] == ActionModel::ClearBatchMode
        &&& actions[k + 2] == ActionModel::RestoreSnapshot { snapshot }
        &&& actions[k + 3] == discard
        &&& end.rollback_failure == answers[k + 2]
    }
}

/// What comes of a run that is still carrying out its plan, or rolling it back.
proof fn lemma_stopped<D>(
    run: RunModel,
    document: D,
    engine: spec_fn(D, ActionModel) -> (D, Option<FailureModel>),
) -> (k: int)
    requires
        run.valid(),
    ensures
        ({
            let end = carried_out(run, document, engine);
            let answers = replies(document, end.actions, engine);
            let discard = ActionModel::DiscardSnapshot { snapshot: run.snapshot };
            &&& answers.len() == end.actions.len()
            &&& match run.phase {
                RunPhase::Closed => end.actions == Seq::<ActionModel>::empty() && end.run == run,
                RunPhase::DiscardSnapshot => end.actions == seq![discard] && end.run.failure
                    == run.failure && end.run.rollback_failure == run.rollback_failure,
                RunPhase::RestoreSnapshot => end.actions == seq![
                    ActionModel::RestoreSnapshot { snapshot: run.snapshot },
                    discard,
                ] && end.run.failure == run.failure && end.run.rollback_failure == answers[0],
                RunPhase::ClearBatchMode => end.actions == seq![
                    ActionModel::ClearBatchMode,
                    ActionModel::RestoreSnapshot { snapshot: run.snapshot },
                    discard,
                ] && end.run.failure == run.failure && end.run.rollback_failure == answers[1],
                _ => if end.run.failure is None {
                    &&& end.run.rollback_failure is None
                    &&& forall|j: int|
                        0 <= j < end.actions.len() - 1 ==> (#[trigger] answers[j]) is None
                } else {
                    stopped_at(end.run, end.actions, answers, run.snapshot, k)
                },
            }
        }),
    decreases answers_left(run),
{
    match run.action() {
        None => 0,
        Some(action) => {
            let answer = engine(document, action);
            let next = run.next(answer.1);
            let rest = carried_out(next, answer.0, engine);
            let end = carried_out(run, document, engine);
            let k = lemma_stopped(next, answer.0, engine);
            lemma_carried_out(next, answer.0, engine);
            assert(end.actions[0] == action);
            assert(end.actions.drop_first() =~= rest.actions);
            let answers = replies(document, end.actions, engine);
            let later = replies(answer.0, rest.actions, engine);
            assert(answers == seq![answer.1] + later);
            assert(forall|j: int|
                0 <= j < later.len() ==> #[trigger] later[j] == answers[j + 1]);
            assert(forall|j: int|
                0 < j < answers.len() ==> #[trigger] answers[j] == later[j - 1]);
            assert(forall|j: int|
                0 < j < end.actions.len() ==> #[trigger] end.actions[j] == rest.actions[j - 1]);
            match run.phase {
                RunPhase::DiscardSnapshot => {
                    assert(end.actions =~= seq![action]);
                    0
                },
                RunPhase::RestoreSnapshot => {
                    assert(end.actions =~= seq![
                        action,
                        ActionModel::DiscardSnapshot { snapshot: run.snapshot },
                    ]);
                    0
                },
                RunPhase::ClearBatchMode => {
                    assert(end.actions =~= seq![
                        action,
                        ActionModel::RestoreSnapshot { snapshot: run.snapshot },
                        ActionModel::DiscardSnapshot { snapshot: run.snapshot },
                    ]);
                    assert(answers[1] == later[0]);
                    0
                },
                _ => {
                    if answer.1 is Some {
                        assert(end.run.failure == answer.1);
                        assert(stopped_at(end.run, end.actions, answers, run.snapshot, 0));
                        0
                    } else if end.run.failure is None {
                        assert forall|j: int| 0 <= j < end.actions.len() - 1 implies (
                        #[trigger] answers[j]) is None by {
                            if j > 0 {
                                assert(answers[j] == later[j - 1]);
                            }
                        }
                        0
                    } else {
                        assert(stopped_at(rest.run, rest.actions, later, run.snapshot, k));
                        assert(stopped_at(end.run, end.actions, answers, run.snapshot, k + 1));
                        k + 1
                    }
                },
            }
        },
    }
}

/// A run reports the first error that the engine answers while the plan is carried out, and stops
/// there: no later step is taken, batch mode is left and the snapshot restored, unless the batch did
/// not even begin. It reports none exactly where the engine answered none to any action of the plan.
pub proof fn law_first_error_is_reported<D>(
    plan: PlanModel,
    snapshot: u32,
    document: D,
    engine: spec_fn(D, ActionModel) -> (D, Option<FailureModel>),
)
    requires
        plan.script.len() <= usize::MAX,
    ensures
        ({
            let end = carried_out(RunModel::begun(plan, snapshot), document, engine);
            let answers = replies(document, end.actions, engine);
            &&& answers.len() == end.actions.len()
            &&& end.run.failure is None <==> forall|j: int|
                0 <= j < end.actions.len() && of_the_plan(#[trigger] end.actions[j]) ==> answers[j]
                    is None
            &&& end.run.failure is Some ==> exists|k: int| #[trigger]
                stopped_at(end.run, end.actions, answers, snapshot, k)
        }),
{
    let run = RunModel::begun(plan, snapshot);
    let end = carried_out(run, document, engine);
    let answers = replies(document, end.actions, engine);
    let k = lemma_stopped(run, document, engine);
    lemma_carried_out(run, document, engine);
    if end.run.failure is Some {
        assert(stopped_at(end.run, end.actions, answers, snapshot, k));
        assert(of_the_plan(end.actions[k]) && answers[k] is Some);
    } else {
        assert forall|j: int|
            0 <= j < end.actions.len() && of_the_plan(#[trigger] end.actions[j]) implies answers[j]
            is None by {
            assert(j != end.actions.len() - 1);
        }
    }
}

/// What an engine owes a run that it carries out: each step does to the texts of the document what
/// it says, and beginning a batch, ending it and discarding a snapshot do nothing to them.
pub open spec fn does_what_it_is_told<D>(
    engine: spec_fn(D, ActionModel) -> (D, Option<FailureModel>),
    texts: spec_fn(D) -> Map<WrittenPlace, Seq<char>>,
) -> bool {
    &&& forall|d: D, step: StepModel|
        texts((#[trigger] engine(d, ActionModel::Edit(step))).0) == after_step(texts(d), step)
    &&& forall|d: D, a: ActionModel|
        a is BeginBatch || a is EndBatch || a is DiscardSnapshot ==> texts(
            (#[trigger] engine(d, a)).0,
        ) == texts(d)
}

/// A run without failure leaves the texts as the steps that are left of its script leave them.
proof fn lemma_run_texts<D>(
    run: RunModel,
    document: D,
    engine: spec_fn(D, ActionModel) -> (D, Option<FailureModel>),
    texts: spec_fn(D) -> Map<WrittenPlace, Seq<char>>,
)
    requires
        run.valid(),
        does_what_it_is_told(engine, texts),
        carried_out(run, document, engine).run.failure is None,
    ensures
        texts(carried_out(run, document, engine).document) == after_steps(
            texts(document),
            match run.phase {
                RunPhase::BeginBatch => run.plan.script,
                RunPhase::Edit(i) => run.plan.script.skip(i as int),
                _ => Seq::empty(),
            },
        ),
    decreases answers_left(run),
{
    if let Some(action) = run.action() {
        let script = run.plan.script;
        let answer = engine(document, action);
        let next = run.next(answer.1);
        lemma_carried_out(next, answer.0, engine);
        lemma_run_texts(next, answer.0, engine, texts);
        assert(script.skip(0) =~= script);
        if let RunPhase::Edit(i) = run.phase {
            let one = seq![script[i as int]];
            assert(script.skip(i as int) =~= one + script.skip(i + 1));
            lemma_after_both(texts(document), one, script.skip(i + 1));
            assert(one.drop_last() =~= Seq::<StepModel>::empty());
            reveal_with_fuel(after_steps, 2);
            assert(after_steps(texts(document), one) == after_step(
                texts(document),
                script[i as int],
            ));
            if i + 1 == script.len() {
                assert(script.skip(i + 1) =~= Seq::<StepModel>::empty());
            }
        }
        if script.len() == 0 {
            assert(script =~= Seq::<StepModel>::empty());
        }
    }
}

/// A run that ends without failure, on an engine that does what it is told, leaves the value of
/// every target of the accepted request at its place, or what stood there where that reads as the
/// value already, and changes no other text.
pub proof fn law_applied_request_leaves_every_value<D>(
    core: DocumentCore,
    request_json: Seq<char>,
    encoded: EncodedRequest,
    layout: LayoutModel,
    start: ApplyStart,
    token: Seq<char>,
    snapshot: u32,
    document: D,
    engine: spec_fn(D, ActionModel) -> (D, Option<FailureModel>),
    texts: spec_fn(D) -> Map<WrittenPlace, Seq<char>>,
)
    requires
        passes(core, request_json, encoded, layout),
        starts_with(
            start,
            preflight_of(core, request_json, Ok(encoded), layout)->Ok_0,
            token,
        ),
        start is Ready,
        start->Ready_0@.script.len() <= usize::MAX,
        does_what_it_is_told(engine, texts),
        forall|i: int|
            0 <= i < encoded.request.targets@.len() ==> texts(document).dom().contains(
                place_named(core, #[trigger] encoded.request.targets@[i]),
            ) && texts(document)[place_named(core, encoded.request.targets@[i])] == text_at(
                core,
                encoded.request.targets@[i],
            ),
        carried_out(
            RunModel::begun(start->Ready_0@, snapshot),
            document,
            engine,
        ).run.failure is None,
    ensures
        ({
            let targets = encoded.request.targets@;
            let end = texts(
                carried_out(
                    RunModel::begun(start->Ready_0@, snapshot),
                    document,
                    engine,
                ).document,
            );
            &&& forall|i: int|
                0 <= i < targets.len() ==> end[place_named(core, #[trigger] targets[i])] == if (
                current_text(core, targets[i]) != targets[i].value_text()) {
                    targets[i].value_text()
                } else {
                    text_at(core, targets[i])
                }
            &&& forall|place: WrittenPlace|
                (forall|i: int|
                    0 <= i < targets.len() ==> place_named(core, #[trigger] targets[i]) != place)
                    ==> #[trigger] end[place] == texts(document)[place]
        }),
{
    let run = RunModel::begun(start->Ready_0@, snapshot);
    lemma_run_texts(run, document, engine, texts);
    law_plan_writes_every_value(
        core,
        request_json,
        encoded,
        layout,
        start,
        token,
        texts(document),
    );
}

/// A run is answered by how it went. Where the engine answered no error to the plan, the answer
/// tells that all was applied, how many targets were updated and, if any were, on which pages, with
/// the warnings and overflows of the plan. Else the answer is the very error that stopped the plan;
/// and where restoring the snapshot failed too, one that displays both.
pub proof fn law_run_is_answered<D>(
    plan: PlanModel,
    snapshot: u32,
    document: D,
    engine: spec_fn(D, ActionModel) -> (D, Option<FailureModel>),
    pages: Seq<u32>,
    k: int,
)
    requires
        plan.script.len() <= usize::MAX,
    ensures
        ({
            let end = carried_out(RunModel::begun(plan, snapshot), document, engine);
            let answers = replies(document, end.actions, engine);
            let named = if plan.updated > 0 {
                pages
            } else {
                Seq::<u32>::empty()
            };
            let no_errors = forall|j: int|
                0 <= j < end.actions.len() && of_the_plan(#[trigger] end.actions[j]) ==> answers[j]
                    is None;
            &&& no_errors ==> (end.run.concluded(pages) matches Ok(tree) && {
                &&& says(tree, "ok"@, JsonTree::Bool(true))
                &&& says(tree, "updated"@, number(plan.updated))
                &&& says(
                    tree,
                    "changedPages"@,
                    JsonTree::List(Seq::new(named.len(), |i: int| number(named[i] as nat))),
                )
                &&& says(
                    tree,
                    "warnings"@,
                    JsonTree::List(
                        Seq::new(plan.warnings.len(), |i: int| warning_tree(plan.warnings[i])),
                    ),
                )
                &&& says(
                    tree,
                    "overflowTargets"@,
                    JsonTree::List(
                        Seq::new(
                            plan.overflow_targets.len(),
                            |i: int| overflow_tree(plan.overflow_targets[i]),
                        ),
                    ),
                )
                &&& says(tree, "rejectedTargets"@, JsonTree::List(Seq::empty()))
                &&& says(tree, "reason"@, JsonTree::Null)
            })
            &&& no_errors && plan.updated > 0 ==> end.run.paragraphs_to_name()
                == plan.changed_paragraphs
            &&& !no_errors || plan.updated == 0 ==> end.run.paragraphs_to_name().len() == 0
            &&& stopped_at(end.run, end.actions, answers, snapshot, k) && end.run.rollback_failure
                is None ==> end.run.concluded(pages) == Err::<JsonTree, ErrorModel>(
                (answers[k]->0).error,
            )
            &&& stopped_at(end.run, end.actions, answers, snapshot, k) && end.run.rollback_failure
                is Some ==> end.run.concluded(pages) == Err::<JsonTree, ErrorModel>(
                ErrorModel::RenderError(
                    "승인 템플릿 적용 실패 후 rollback도 실패했습니다: "@ + (answers[k]->0).display + "; "@
                        + (answers[k + 2]->0).display,
                ),
            )
        }),
{
    let end = carried_out(RunModel::begun(plan, snapshot), document, engine);
    lemma_carried_out(RunModel::begun(plan, snapshot), document, engine);
    law_first_error_is_reported(plan, snapshot, document, engine);
    let named = if plan.updated > 0 {
        pages
    } else {
        Seq::<u32>::empty()
    };
    law_applied_answer(
        true,
        plan.updated,
        named,
        plan.warnings,
        plan.overflow_targets,
        Seq::empty(),
        None,
    );
    assert(Seq::new(0, |i: int| rejection_tree(Seq::<RejectionModel>::empty()[i])) =~= Seq::<
        JsonTree,
    >::empty());
}

/// A request that does not start is answered: one that failed its check with the report of that,
/// and one whose token is not that of the check with an answer that nothing was updated, for the
/// reason that the check is out of date. No other request is refused.
pub proof fn law_refused_start_is_answered(
    start: ApplyStart,
    checked: PreflightModel,
    token: Seq<char>,
)
    requires
        starts_with(start, checked, token),
    ensures
        start is Refused <==> !checked.report.ok || checked.token != Some(token),
        !checked.report.ok ==> start->Refused_0@ == json_text(report_tree(checked.report)),
        checked.report.ok && checked.token != Some(token) ==> exists|tree: JsonTree|
            start->Refused_0@ == #[trigger] json_text(tree) && says(
                tree,
                "ok"@,
                JsonTree::Bool(false),
            ) && says(tree, "updated"@, number(0)) && says(
                tree,
                "changedPages"@,
                JsonTree::List(Seq::empty()),
            ) && says(tree, "rejectedTargets"@, JsonTree::List(Seq::empty())) && says(
                tree,
                "reason"@,
                JsonTree::Text("stale-preflight"@),
            ),
{
    law_applied_answer(
        false,
        0,
        Seq::empty(),
        Seq::empty(),
        Seq::empty(),
        Seq::empty(),
        Some(FailureReason::StalePreflight),
    );
    assert(Seq::new(0, |i: int| rejection_tree(Seq::<RejectionModel>::empty()[i])) =~= Seq::<
        JsonTree,
    >::empty());
    assert(Seq::new(0, |i: int| number(Seq::<u32>::empty()[i] as nat)) =~= Seq::<
        JsonTree,
    >::empty());
}

/// What a plan reports besides its steps is what the check reported.
pub proof fn law_plan_reports_the_check(
    start: ApplyStart,
    checked: PreflightModel,
    token: Seq<char>,
)
    requires
        starts_with(start, checked, token),
        start is Ready,
    ensures
        start->Ready_0@.changed_paragraphs == checked.changed_paragraphs,
        start->Ready_0@.warnings == checked.report.warnings,
        start->Ready_0@.overflow_targets == checked.report.overflow_targets,
{
}

/// The engine's answer to an action is taken as it is: no error where it went well, and else the
/// very error with its display.
pub proof fn law_answers_are_taken(reply: Result<(), EngineFailure>)
    ensures
        reply is Ok ==> error_of(reply) is None,
        reply matches Err(failure) ==> error_of(reply) is Some && (error_of(reply)->0).error
            == failure.error@ && (error_of(reply)->0).display == failure.display@,
{
}

} // verus!
