//! What holds of applying a request, whatever the document engine answers.

use vstd::prelude::*;

use crate::apply::{
    plan_of, script_of, steps_of, updated_of, ActionModel, PlanModel, RunModel, RunPhase, StepModel,
};
use crate::edit::{EditModel, FailureModel};
use crate::laws::{current_text, law_accepted_edits_match_targets, lemma_resolutions};
use crate::model::DocumentCore;
use crate::preflight::{preflight_of, resolution_of, LayoutModel};
use crate::request::{ApprovedEditTargetV1, EncodedRequest};
use crate::table::{cell_of, place_of};

verus! {

/// How many answers of the engine a run waits for at most.
pub open spec fn answers_left(run: RunModel) -> nat {
    let steps = run.plan.script.len();
    match run.phase {
        RunPhase::BeginBatch => steps + 5,
        RunPhase::Edit(i) => (steps - i + 4) as nat,
        RunPhase::EndBatch => 4,
        RunPhase::ClearBatchMode => 3,
        RunPhase::RestoreSnapshot => 2,
        RunPhase::DiscardSnapshot => 1,
        RunPhase::Closed => 0,
    }
}

/// What comes of carrying out a run: the closed run, the document, and what the engine did.
pub struct Outcome<D> {
    pub run: RunModel,
    pub document: D,
    pub actions: Seq<ActionModel>,
}

/// Carries out a run to its end on an engine, which takes a document and an action, and gives the
/// document after it and an error where it failed.
pub open spec fn carried_out<D>(
    run: RunModel,
    document: D,
    engine: spec_fn(D, ActionModel) -> (D, Option<FailureModel>),
) -> Outcome<D>
    decreases answers_left(run),
    when run.valid()
{
    match run.action() {
        None => Outcome { run, document, actions: seq![] },
        Some(action) => {
            let answer = engine(document, action);
            let rest = carried_out(run.next(answer.1), answer.0, engine);
            Outcome { run: rest.run, document: rest.document, actions: seq![action] + rest.actions }
        },
    }
}

/// The steps of a script from the `from`th on, as actions.
pub open spec fn edits_from(script: Seq<StepModel>, from: int) -> Seq<ActionModel> {
    script.skip(from).map_values(|step: StepModel| ActionModel::Edit(step))
}

/// What a run still does where nothing fails.
pub open spec fn undisturbed(run: RunModel) -> Seq<ActionModel> {
    let script = run.plan.script;
    let discard = ActionModel::DiscardSnapshot { snapshot: run.snapshot };
    match run.phase {
        RunPhase::BeginBatch => seq![ActionModel::BeginBatch] + edits_from(script, 0) + seq![
            ActionModel::EndBatch,
            discard,
        ],
        RunPhase::Edit(i) => edits_from(script, i as int) + seq![ActionModel::EndBatch, discard],
        RunPhase::EndBatch => seq![ActionModel::EndBatch, discard],
        RunPhase::ClearBatchMode => seq![],
        RunPhase::RestoreSnapshot => seq![],
        RunPhase::DiscardSnapshot => seq![discard],
        RunPhase::Closed => seq![],
    }
}

/// Whether an action is no edit but of a step of the script.
pub open spec fn is_of(script: Seq<StepModel>, action: ActionModel) -> bool {
    action matches ActionModel::Edit(step) ==> script.contains(step)
}

/// A run is carried out to its end; it takes no step but those of its script; it discards its
/// snapshot last, and only then; and where nothing fails it does all that is left of its script.
pub proof fn lemma_carried_out<D>(
    run: RunModel,
    document: D,
    engine: spec_fn(D, ActionModel) -> (D, Option<FailureModel>),
)
    requires
        run.valid(),
    ensures
        ({
            let end = carried_out(run, document, engine);
            &&& end.run.valid()
            &&& end.run.phase == RunPhase::Closed
            &&& end.run.plan == run.plan
            &&& end.actions.len() <= answers_left(run)
            &&& run.failure is Some ==> end.run.failure == run.failure
            &&& forall|i: int|
                0 <= i < end.actions.len() ==> is_of(run.plan.script, #[trigger] end.actions[i])
            &&& end.run.failure is None ==> end.actions == undisturbed(run)
            &&& run.phase == RunPhase::Closed ==> end.actions.len() == 0
            &&& run.phase != RunPhase::Closed ==> {
                &&& end.actions.len() > 0
                &&& end.actions.last() == ActionModel::DiscardSnapshot { snapshot: run.snapshot }
                &&& forall|i: int|
                    0 <= i < end.actions.len() - 1 ==> !((#[trigger] end.actions[i])
                        is DiscardSnapshot)
            }
        }),
    decreases answers_left(run),
{
    if let Some(action) = run.action() {
        let answer = engine(document, action);
        let next = run.next(answer.1);
        lemma_carried_out(next, answer.0, engine);
        let end = carried_out(run, document, engine);
        let rest = carried_out(next, answer.0, engine);
        assert(end.actions =~= seq![action] + rest.actions);
        if end.run.failure is None {
            let script = run.plan.script;
            if let RunPhase::Edit(i) = run.phase {
                assert(edits_from(script, i as int) =~= seq![action] + edits_from(script, i + 1));
                assert(edits_from(script, script.len() as int) =~= seq![]);
            }
            if let RunPhase::BeginBatch = run.phase {
                assert(script.len() == 0 ==> edits_from(script, 0) =~= seq![]);
            }
            assert(end.actions =~= undisturbed(run));
        }
    }
}

/// Every run comes to an end, and whatever fails, its last action is to discard the snapshot that
/// was saved for it, which it does once.
pub proof fn law_snapshot_is_discarded_once<D>(
    plan: PlanModel,
    snapshot: u32,
    document: D,
    engine: spec_fn(D, ActionModel) -> (D, Option<FailureModel>),
)
    requires
        plan.script.len() <= usize::MAX,
    ensures
        ({
            let end = carried_out(RunModel::begun(plan, snapshot), document, engine);
            &&& end.run.valid()
            &&& end.run.phase == RunPhase::Closed
            &&& end.actions.len() > 0
            &&& end.actions.last() == ActionModel::DiscardSnapshot { snapshot }
            &&& forall|i: int|
                0 <= i < end.actions.len() - 1 ==> !((#[trigger] end.actions[i])
                    is DiscardSnapshot)
        }),
{
    lemma_carried_out(RunModel::begun(plan, snapshot), document, engine);
}

/// A run edits nothing but what its script says, whatever fails; so a run without a script edits
/// nothing.
pub proof fn law_run_takes_only_its_steps<D>(
    plan: PlanModel,
    snapshot: u32,
    document: D,
    engine: spec_fn(D, ActionModel) -> (D, Option<FailureModel>),
)
    requires
        plan.script.len() <= usize::MAX,
    ensures
        ({
            let end = carried_out(RunModel::begun(plan, snapshot), document, engine);
            forall|i: int|
                0 <= i < end.actions.len() ==> is_of(plan.script, #[trigger] end.actions[i])
        }),
{
    lemma_carried_out(RunModel::begun(plan, snapshot), document, engine);
}

/// What a document engine owes a run. `kept` tells the documents that still have the snapshot.
///
/// Only discarding a snapshot loses it; restoring it, where that does not fail, brings back
/// `original`; discarding it leaves the content alone; and so does a batch that does not begin.
pub open spec fn snapshots_work<D, C>(
    engine: spec_fn(D, ActionModel) -> (D, Option<FailureModel>),
    content: spec_fn(D) -> C,
    kept: spec_fn(D) -> bool,
    snapshot: u32,
    original: C,
) -> bool {
    &&& forall|d: D, a: ActionModel|
        kept(d) && !(a is DiscardSnapshot) ==> kept((#[trigger] engine(d, a)).0)
    &&& forall|d: D|
        kept(d) && (#[trigger] engine(d, ActionModel::RestoreSnapshot { snapshot })).1 is None
            ==> content(engine(d, ActionModel::RestoreSnapshot { snapshot }).0) == original
    &&& forall|d: D|
        content((#[trigger] engine(d, ActionModel::DiscardSnapshot { snapshot })).0) == content(d)
    &&& forall|d: D|
        (#[trigger] engine(d, ActionModel::BeginBatch)).1 is Some ==> content(
            engine(d, ActionModel::BeginBatch).0,
        ) == content(d)
}

/// A run that fails and is rolled back ends with the original content.
proof fn lemma_rolled_back<D, C>(
    run: RunModel,
    document: D,
    engine: spec_fn(D, ActionModel) -> (D, Option<FailureModel>),
    content: spec_fn(D) -> C,
    kept: spec_fn(D) -> bool,
    original: C,
)
    requires
        run.valid(),
        snapshots_work(engine, content, kept, run.snapshot, original),
        run.phase != RunPhase::DiscardSnapshot && run.phase != RunPhase::Closed ==> kept(document),
        run.phase == RunPhase::BeginBatch ==> content(document) == original,
        run.phase == RunPhase::DiscardSnapshot || run.phase == RunPhase::Closed ==> run.failure
            is None || run.rollback_failure is Some || content(document) == original,
    ensures
        ({
            let end = carried_out(run, document, engine);
            end.run.failure is Some && end.run.rollback_failure is None ==> content(end.document)
                == original
        }),
    decreases answers_left(run),
{
    if let Some(action) = run.action() {
        let answer = engine(document, action);
        lemma_rolled_back(run.next(answer.1), answer.0, engine, content, kept, original);
    }
}

/// A request is applied as a whole or not at all, on any engine whose snapshots work: where
/// nothing fails, every step of the script is taken, in order, inside one batch; where something
/// fails and the rollback does not, the content is what it was before.
pub proof fn law_run_is_all_or_nothing<D, C>(
    plan: PlanModel,
    snapshot: u32,
    document: D,
    engine: spec_fn(D, ActionModel) -> (D, Option<FailureModel>),
    content: spec_fn(D) -> C,
    kept: spec_fn(D) -> bool,
)
    requires
        plan.script.len() <= usize::MAX,
        kept(document),
        snapshots_work(engine, content, kept, snapshot, content(document)),
    ensures
        ({
            let end = carried_out(RunModel::begun(plan, snapshot), document, engine);
            &&& end.run.phase == RunPhase::Closed
            &&& end.run.failure is None ==> end.actions == seq![ActionModel::BeginBatch]
                + edits_from(plan.script, 0) + seq![
                ActionModel::EndBatch,
                ActionModel::DiscardSnapshot { snapshot },
            ]
            &&& end.run.failure is Some && end.run.rollback_failure is None ==> content(
                end.document,
            ) == content(document)
        }),
{
    let run = RunModel::begun(plan, snapshot);
    lemma_carried_out(run, document, engine);
    lemma_rolled_back(run, document, engine, content, kept, content(document));
}

/// What a text becomes by one step that is taken on it.
pub open spec fn with_step(text: Seq<char>, step: StepModel) -> Seq<char> {
    match step {
        StepModel::SetField { value, .. } => value,
        StepModel::DeleteText { offset, count, .. } => text.take(offset as int) + text.skip(
            (offset + count) as int,
        ),
        StepModel::InsertText { offset, text: added, .. } => text.take(offset as int) + added
            + text.skip(offset as int),
        StepModel::DeleteCellText { offset, count, .. } => text.take(offset as int) + text.skip(
            (offset + count) as int,
        ),
        StepModel::InsertCellText { offset, text: added, .. } => text.take(offset as int) + added
            + text.skip(offset as int),
    }
}

/// What a text becomes by a run of steps.
pub open spec fn with_steps(text: Seq<char>, steps: Seq<StepModel>) -> Seq<char>
    decreases steps.len(),
{
    if steps.len() == 0 {
        text
    } else {
        with_step(with_steps(text, steps.drop_last()), steps.last())
    }
}

/// A place that a step writes to.
pub enum WrittenPlace {
    Field { field_id: u32 },
    Body { section_index: usize, paragraph_index: usize },
    CellParagraph {
        section_index: usize,
        paragraph_index: usize,
        control_index: usize,
        cell_index: usize,
        cell_paragraph: nat,
    },
}

/// The place that a step writes to.
pub open spec fn place_written(step: StepModel) -> WrittenPlace {
    match step {
        StepModel::SetField { field_id, .. } => WrittenPlace::Field { field_id },
        StepModel::DeleteText { section_index, paragraph_index, .. } => WrittenPlace::Body {
            section_index,
            paragraph_index,
        },
        StepModel::InsertText { section_index, paragraph_index, .. } => WrittenPlace::Body {
            section_index,
            paragraph_index,
        },
        StepModel::DeleteCellText {
            section_index,
            paragraph_index,
            control_index,
            cell_index,
            cell_paragraph,
            ..
        } => WrittenPlace::CellParagraph {
            section_index,
            paragraph_index,
            control_index,
            cell_index,
            cell_paragraph,
        },
        StepModel::InsertCellText {
            section_index,
            paragraph_index,
            control_index,
            cell_index,
            cell_paragraph,
            ..
        } => WrittenPlace::CellParagraph {
            section_index,
            paragraph_index,
            control_index,
            cell_index,
            cell_paragraph,
        },
    }
}

/// The place that a target names: a field, a paragraph of the body, or the first paragraph of a
/// cell.
pub open spec fn place_named(core: DocumentCore, target: ApprovedEditTargetV1) -> WrittenPlace {
    match target {
        ApprovedEditTargetV1::NativeField { field_id, .. } => WrittenPlace::Field { field_id },
        ApprovedEditTargetV1::BodyPlaceholder { section_index, paragraph_index, .. } =>
            WrittenPlace::Body { section_index, paragraph_index },
        ApprovedEditTargetV1::TableCell { table_index, row, col, .. } => {
            let place = place_of(core.document, table_index, row, col)->Ok_0;
            WrittenPlace::CellParagraph {
                section_index: place.grid.section,
                paragraph_index: place.grid.paragraph,
                control_index: place.grid.control,
                cell_index: place.cell as usize,
                cell_paragraph: 0,
            }
        },
    }
}

/// What stands at the place that a target names.
pub open spec fn text_at(core: DocumentCore, target: ApprovedEditTargetV1) -> Seq<char> {
    match target {
        ApprovedEditTargetV1::TableCell { table_index, row, col, .. } => cell_of(
            core.document,
            place_of(core.document, table_index, row, col)->Ok_0,
        ).paragraphs@[0].text@,
        _ => current_text(core, target),
    }
}

/// Deleting a text as a whole and inserting another leaves the other.
proof fn lemma_replaced(text: Seq<char>, value: Seq<char>)
    ensures
        text.take(0) + text.skip(text.len() as int) == Seq::<char>::empty(),
        Seq::<char>::empty().take(0) + value + Seq::<char>::empty().skip(0) == value,
{
    assert(text.take(0) + text.skip(text.len() as int) =~= Seq::<char>::empty());
    assert(Seq::<char>::empty().take(0) + value + Seq::<char>::empty().skip(0) =~= value);
}

/// The steps of an accepted edit write its value: they touch no place but the one that the target
/// names, and where they change anything, exactly the value stands there afterwards.
pub proof fn law_edit_writes_its_value(
    core: DocumentCore,
    request_json: Seq<char>,
    encoded: EncodedRequest,
    layout: LayoutModel,
    i: int,
)
    requires
        preflight_of(core, request_json, Ok(encoded), layout) is Ok,
        preflight_of(core, request_json, Ok(encoded), layout)->Ok_0.report.ok,
        0 <= i < encoded.request.targets@.len(),
    ensures
        ({
            let target = encoded.request.targets@[i];
            let edit = preflight_of(core, request_json, Ok(encoded), layout)->Ok_0.edits[i];
            let steps = steps_of(edit);
            &&& edit.changes() ==> with_steps(text_at(core, target), steps) == target.value_text()
            &&& !edit.changes() ==> steps.len() == 0
            &&& forall|k: int|
                0 <= k < steps.len() ==> place_written(#[trigger] steps[k]) == place_named(
                    core,
                    target,
                )
        }),
{
    let targets = encoded.request.targets@;
    let target = targets[i];
    lemma_resolutions(core, targets, layout.overflow);
    let one = resolution_of(core, target, layout.overflow);
    assert(one.edits.len() == 1);
    let edit = one.edits[0];
    let steps = steps_of(edit);
    let held = text_at(core, target);
    let value = target.value_text();
    lemma_replaced(held, value);
    reveal_with_fuel(with_steps, 3);
    if edit.changes() {
        match edit {
            EditModel::NativeField { .. } => {},
            _ => {
                assert(held.len() == 0 ==> held =~= Seq::<char>::empty());
                assert(value.len() == 0 ==> value =~= Seq::<char>::empty());
                if held.len() > 0 && value.len() > 0 {
                    assert(steps.len() == 2);
                    assert(steps.drop_last().len() == 1);
                    assert(steps.drop_last().last() == steps[0]);
                    assert(steps.drop_last().drop_last() =~= Seq::<StepModel>::empty());
                }
            },
        }
    }
}

/// A count of changes is zero where nothing changes, and only there; and then no step is taken.
proof fn lemma_unchanged(edits: Seq<EditModel>)
    ensures
        updated_of(edits) <= edits.len(),
        updated_of(edits) == 0 <==> forall|i: int|
            0 <= i < edits.len() ==> !(#[trigger] edits[i]).changes(),
        updated_of(edits) == 0 ==> script_of(edits).len() == 0,
    decreases edits.len(),
{
    if edits.len() > 0 {
        let init = edits.drop_last();
        lemma_unchanged(init);
        assert(edits.last() == edits[edits.len() - 1]);
        if updated_of(edits) == 0 {
            assert forall|i: int| 0 <= i < edits.len() implies !(#[trigger] edits[i]).changes() by {
                if i < init.len() {
                    assert(init[i] == edits[i]);
                }
            }
        }
        if forall|i: int| 0 <= i < edits.len() ==> !(#[trigger] edits[i]).changes() {
            assert forall|i: int| 0 <= i < init.len() implies !(#[trigger] init[i]).changes() by {
                assert(init[i] == edits[i]);
            }
        }
    }
}

/// Applying a request again changes nothing: an accepted request takes no step and counts no
/// update exactly where every place that it names holds its value already.
pub proof fn law_applied_request_changes_nothing(
    core: DocumentCore,
    request_json: Seq<char>,
    encoded: EncodedRequest,
    layout: LayoutModel,
)
    requires
        preflight_of(core, request_json, Ok(encoded), layout) is Ok,
        preflight_of(core, request_json, Ok(encoded), layout)->Ok_0.report.ok,
    ensures
        ({
            let plan = plan_of(preflight_of(core, request_json, Ok(encoded), layout)->Ok_0);
            let targets = encoded.request.targets@;
            &&& plan.updated == 0 <==> forall|i: int|
                0 <= i < targets.len() ==> current_text(core, #[trigger] targets[i])
                    == targets[i].value_text()
            &&& plan.updated == 0 ==> plan.script.len() == 0
            &&& plan.updated <= targets.len()
        }),
{
    let targets = encoded.request.targets@;
    let edits = preflight_of(core, request_json, Ok(encoded), layout)->Ok_0.edits;
    law_accepted_edits_match_targets(core, request_json, encoded, layout);
    lemma_unchanged(edits);
    assert forall|i: int| 0 <= i < targets.len() implies ((#[trigger] edits[i]).changes()
        <==> current_text(core, targets[i]) != targets[i].value_text()) by {
        assert(edits[i].old_text() == current_text(core, targets[i]));
    }
    if updated_of(edits) == 0 {
        assert forall|i: int| 0 <= i < targets.len() implies current_text(
            core,
            #[trigger] targets[i],
        ) == targets[i].value_text() by {
            assert(!edits[i].changes());
        }
    }
    if forall|i: int|
        0 <= i < targets.len() ==> current_text(core, #[trigger] targets[i])
            == targets[i].value_text() {
        assert forall|i: int| 0 <= i < edits.len() implies !(#[trigger] edits[i]).changes() by {
            assert(current_text(core, targets[i]) == targets[i].value_text());
        }
    }
}

} // verus!
