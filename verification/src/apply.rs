//! Applying a checked request: which steps the document engine takes, and what follows from how
//! they go.

use vstd::prelude::*;
use vstd::string::{StrSliceExecFns, StringExecFns};

use crate::edit::{EditModel, EngineFailure, ErrorModel, FailureModel, HwpError, ResolvedEdit};
use crate::json::{json_text, json_to_string, JsonTree};
use crate::model::DocumentCore;
use crate::preflight::{preflight_of, LayoutReport, PreflightModel, PreflightState};
use crate::report::{
    applied_result, apply_tree, failed_apply_result, report_json, report_tree, views,
    FailureReason, OverflowModel, OverflowTarget, Rejection, Warning, WarningModel,
};
use crate::request::EncodedRequest;

verus! {

/// One change to the text of the document.
#[derive(Debug)]
pub enum EditStep {
    /// Sets the value of a field.
    SetField { field_id: u32, value: String },
    /// Deletes characters of a body paragraph.
    DeleteText { section_index: usize, paragraph_index: usize, offset: usize, count: usize },
    /// Inserts text into a body paragraph.
    InsertText { section_index: usize, paragraph_index: usize, offset: usize, text: String },
    /// Deletes characters of a paragraph of a cell.
    DeleteCellText {
        section_index: usize,
        paragraph_index: usize,
        control_index: usize,
        cell_index: usize,
        cell_paragraph: usize,
        offset: usize,
        count: usize,
    },
    /// Inserts text into a paragraph of a cell.
    InsertCellText {
        section_index: usize,
        paragraph_index: usize,
        control_index: usize,
        cell_index: usize,
        cell_paragraph: usize,
        offset: usize,
        text: String,
    },
}

/// A change as a mathematical value.
pub enum StepModel {
    SetField { field_id: u32, value: Seq<char> },
    DeleteText { section_index: usize, paragraph_index: usize, offset: nat, count: nat },
    InsertText { section_index: usize, paragraph_index: usize, offset: nat, text: Seq<char> },
    DeleteCellText {
        section_index: usize,
        paragraph_index: usize,
        control_index: usize,
        cell_index: usize,
        cell_paragraph: nat,
        offset: nat,
        count: nat,
    },
    InsertCellText {
        section_index: usize,
        paragraph_index: usize,
        control_index: usize,
        cell_index: usize,
        cell_paragraph: nat,
        offset: nat,
        text: Seq<char>,
    },
}

impl View for EditStep {
    type V = StepModel;

    open spec fn view(&self) -> StepModel {
        match *self {
            EditStep::SetField { field_id, value } => StepModel::SetField {
                field_id,
                value: value@,
            },
            EditStep::DeleteText { section_index, paragraph_index, offset, count } =>
                StepModel::DeleteText {
                section_index,
                paragraph_index,
                offset: offset as nat,
                count: count as nat,
            },
            EditStep::InsertText { section_index, paragraph_index, offset, text } =>
                StepModel::InsertText {
                section_index,
                paragraph_index,
                offset: offset as nat,
                text: text@,
            },
            EditStep::DeleteCellText {
                section_index,
                paragraph_index,
                control_index,
                cell_index,
                cell_paragraph,
                offset,
                count,
            } => StepModel::DeleteCellText {
                section_index,
                paragraph_index,
                control_index,
                cell_index,
                cell_paragraph: cell_paragraph as nat,
                offset: offset as nat,
                count: count as nat,
            },
            EditStep::InsertCellText {
                section_index,
                paragraph_index,
                control_index,
                cell_index,
                cell_paragraph,
                offset,
                text,
            } => StepModel::InsertCellText {
                section_index,
                paragraph_index,
                control_index,
                cell_index,
                cell_paragraph: cell_paragraph as nat,
                offset: offset as nat,
                text: text@,
            },
        }
    }
}

/// `step`, if it is due.
pub open spec fn step_if(due: bool, step: StepModel) -> Seq<StepModel> {
    if due {
        seq![step]
    } else {
        seq![]
    }
}

/// The first length, or zero where there is none.
pub open spec fn first_length(lengths: Seq<nat>) -> nat {
    if lengths.len() > 0 {
        lengths[0]
    } else {
        0
    }
}

/// The steps that an edit takes: none where it changes nothing; else the value of a field is set,
/// and other text is deleted as a whole before the value is inserted in its place.
pub open spec fn steps_of(edit: EditModel) -> Seq<StepModel> {
    if !edit.changes() {
        seq![]
    } else {
        match edit {
            EditModel::NativeField { field_id, value, .. } => seq![
                StepModel::SetField { field_id, value },
            ],
            EditModel::BodyPlaceholder {
                section_index,
                paragraph_index,
                old_value,
                value,
                ..
            } => step_if(
                old_value.len() > 0,
                StepModel::DeleteText {
                    section_index,
                    paragraph_index,
                    offset: 0,
                    count: old_value.len(),
                },
            ) + step_if(
                value.len() > 0,
                StepModel::InsertText { section_index, paragraph_index, offset: 0, text: value },
            ),
            EditModel::TableCell { resolved, value, .. } => step_if(
                first_length(resolved.paragraph_lengths) > 0,
                StepModel::DeleteCellText {
                    section_index: resolved.section_index,
                    paragraph_index: resolved.paragraph_index,
                    control_index: resolved.control_index,
                    cell_index: resolved.cell_index,
                    cell_paragraph: 0,
                    offset: 0,
                    count: first_length(resolved.paragraph_lengths),
                },
            ) + step_if(
                value.len() > 0,
                StepModel::InsertCellText {
                    section_index: resolved.section_index,
                    paragraph_index: resolved.paragraph_index,
                    control_index: resolved.control_index,
                    cell_index: resolved.cell_index,
                    cell_paragraph: 0,
                    offset: 0,
                    text: value,
                },
            ),
        }
    }
}

/// The steps that a run of edits takes.
pub open spec fn script_of(edits: Seq<EditModel>) -> Seq<StepModel>
    decreases edits.len(),
{
    if edits.len() == 0 {
        seq![]
    } else {
        script_of(edits.drop_last()) + steps_of(edits.last())
    }
}

/// How many of the edits change something.
pub open spec fn updated_of(edits: Seq<EditModel>) -> nat
    decreases edits.len(),
{
    if edits.len() == 0 {
        0
    } else {
        updated_of(edits.drop_last()) + if edits.last().changes() {
            1nat
        } else {
            0nat
        }
    }
}

/// What is to be done to apply a checked request, and what is reported once it is done.
#[derive(Debug)]
pub struct ApplyPlan {
    pub script: Vec<EditStep>,
    pub updated: usize,
    pub changed_paragraphs: Vec<(usize, usize)>,
    pub warnings: Vec<Warning>,
    pub overflow_targets: Vec<OverflowTarget>,
}

/// A plan as a mathematical value.
pub struct PlanModel {
    pub script: Seq<StepModel>,
    pub updated: nat,
    pub changed_paragraphs: Seq<(usize, usize)>,
    pub warnings: Seq<WarningModel>,
    pub overflow_targets: Seq<OverflowModel>,
}

impl View for ApplyPlan {
    type V = PlanModel;

    open spec fn view(&self) -> PlanModel {
        PlanModel {
            script: views(self.script@),
            updated: self.updated as nat,
            changed_paragraphs: self.changed_paragraphs@,
            warnings: views(self.warnings@),
            overflow_targets: views(self.overflow_targets@),
        }
    }
}

/// The plan that follows from an accepted request.
pub open spec fn plan_of(checked: PreflightModel) -> PlanModel {
    PlanModel {
        script: script_of(checked.edits),
        updated: updated_of(checked.edits),
        changed_paragraphs: checked.changed_paragraphs,
        warnings: checked.report.warnings,
        overflow_targets: checked.report.overflow_targets,
    }
}

/// Appends the steps of an edit that changes something.
fn plan_edit(script: &mut Vec<EditStep>, edit: &ResolvedEdit)
    requires
        edit@.changes(),
    ensures
        views(final(script)@) == views(old(script)@) + steps_of(edit@),
{
    match edit {
        ResolvedEdit::NativeField { field_id, value, .. } => {
            script.push(EditStep::SetField { field_id: *field_id, value: value.clone() });
        },
        ResolvedEdit::BodyPlaceholder {
            section_index,
            paragraph_index,
            old_value,
            value,
            ..
        } => {
            if !old_value.as_str().is_empty() {
                script.push(
                    EditStep::DeleteText {
                        section_index: *section_index,
                        paragraph_index: *paragraph_index,
                        offset: 0,
                        count: old_value.as_str().unicode_len(),
                    },
                );
            }
            if !value.as_str().is_empty() {
                script.push(
                    EditStep::InsertText {
                        section_index: *section_index,
                        paragraph_index: *paragraph_index,
                        offset: 0,
                        text: value.clone(),
                    },
                );
            }
        },
        ResolvedEdit::TableCell { resolved, value, .. } => {
            let old_len: usize = if resolved.paragraph_lengths.len() > 0 {
                resolved.paragraph_lengths[0]
            } else {
                0
            };
            if old_len > 0 {
                script.push(
                    EditStep::DeleteCellText {
                        section_index: resolved.section_index,
                        paragraph_index: resolved.paragraph_index,
                        control_index: resolved.control_index,
                        cell_index: resolved.cell_index,
                        cell_paragraph: 0,
                        offset: 0,
                        count: old_len,
                    },
                );
            }
            if !value.as_str().is_empty() {
                script.push(
                    EditStep::InsertCellText {
                        section_index: resolved.section_index,
                        paragraph_index: resolved.paragraph_index,
                        control_index: resolved.control_index,
                        cell_index: resolved.cell_index,
                        cell_paragraph: 0,
                        offset: 0,
                        text: value.clone(),
                    },
                );
            }
        },
    }
    assert(views(script@) =~= views(old(script)@) + steps_of(edit@));
}

/// Plans how an accepted request is applied.
fn plan_edits(state: PreflightState) -> (plan: ApplyPlan)
    ensures
        plan@ == plan_of(state@),
{
    let edits: &Vec<ResolvedEdit> = &state.edits;
    let ghost all = views(edits@);
    let mut script: Vec<EditStep> = Vec::new();
    let mut updated: usize = 0;
    let mut i: usize = 0;
    assert(views(script@) =~= script_of(all.take(0)));
    while i < edits.len()
        invariant
            i <= edits@.len(),
            all == views(edits@),
            views(script@) == script_of(all.take(i as int)),
            updated <= i,
            updated as nat == updated_of(all.take(i as int)),
        decreases edits@.len() - i,
    {
        let edit: &ResolvedEdit = &edits[i];
        proof {
            assert(all.take(i + 1).drop_last() =~= all.take(i as int));
            assert(all.take(i + 1).last() == edit@);
        }
        if !(*edit.old_value() == *edit.value()) {
            plan_edit(&mut script, edit);
            updated += 1;
        } else {
            assert(views(script@) + steps_of(edit@) =~= views(script@));
        }
        i += 1;
    }
    assert(all.take(all.len() as int) =~= all);
    ApplyPlan {
        script,
        updated,
        changed_paragraphs: state.changed_paragraphs,
        warnings: state.report.warnings,
        overflow_targets: state.report.overflow_targets,
    }
}

/// How the application of a request starts: with an answer that refuses it, or with a plan.
#[derive(Debug)]
pub enum ApplyStart {
    Refused(String),
    Ready(ApplyPlan),
}

/// Answers that a request was not applied because its token is out of date.
pub open spec fn stale_answer() -> Seq<char> {
    json_text(
        apply_tree(
            false,
            0,
            seq![],
            seq![],
            seq![],
            seq![],
            Some(FailureReason::StalePreflight),
        ),
    )
}

/// How the application of a checked request starts, given the token that it comes with: with the
/// answer of the check where that failed, with a refusal where the token is not that of the check,
/// and else with a plan.
pub open spec fn starts_with(start: ApplyStart, checked: PreflightModel, token: Seq<char>) -> bool {
    if !checked.report.ok {
        start matches ApplyStart::Refused(answer) && answer@ == json_text(
            report_tree(checked.report),
        )
    } else if checked.token != Some(token) {
        start matches ApplyStart::Refused(answer) && answer@ == stale_answer()
    } else {
        start matches ApplyStart::Ready(plan) && plan@ == plan_of(checked)
    }
}

/// Decides how the application of a checked request starts.
pub fn start_apply(state: PreflightState, preflight_token: &str) -> (start: ApplyStart)
    ensures
        starts_with(start, state@, preflight_token@),
{
    if !state.report.ok {
        return ApplyStart::Refused(json_to_string(&report_json(state.report)));
    }
    let fresh: bool = match &state.token {
        Some(token) => *token == preflight_token.to_owned(),
        None => false,
    };
    if !fresh {
        let none: Vec<Rejection> = Vec::new();
        assert(views(none@) =~= seq![]);
        return ApplyStart::Refused(
            json_to_string(&failed_apply_result(FailureReason::StalePreflight, none)),
        );
    }
    ApplyStart::Ready(plan_edits(state))
}

impl DocumentCore {
    /// Checks a request again and, if it passes and `preflight_token` is the token of that check,
    /// plans how it is applied as a whole. The plan is carried out by an `ApplyRun`.
    pub fn apply_approved_template_edits_native(
        &mut self,
        request_json: &str,
        decoded: &Result<EncodedRequest, String>,
        layout: LayoutReport,
        preflight_token: &str,
    ) -> (start: Result<ApplyStart, HwpError>)
        requires
            old(self).document.well_formed(),
        ensures
            *final(self) == *old(self),
            match preflight_of(*old(self), request_json@, *decoded, layout@) {
                Ok(checked) => start matches Ok(s) && starts_with(s, checked, preflight_token@),
                Err(text) => start matches Err(HwpError::RenderError(message)) && message@ == text,
            },
    {
        match self.preflight_approved_template_edits(request_json, decoded, layout) {
            Ok(state) => Ok(start_apply(state, preflight_token)),
            Err(error) => Err(error),
        }
    }
}

/// What a run is about to do.
#[derive(Debug, Clone, Copy, PartialEq, Eq, Structural)]
pub enum RunPhase {
    BeginBatch,
    /// Take the step at this position of the script.
    Edit(usize),
    EndBatch,
    ClearBatchMode,
    RestoreSnapshot,
    DiscardSnapshot,
    Closed,
}

/// What the document engine is to do next.
#[derive(Debug)]
pub enum EngineAction<'a> {
    /// Defer pagination until the batch ends.
    BeginBatch,
    Edit(&'a EditStep),
    /// Paginate once for the whole batch.
    EndBatch,
    /// Leave the batch without paginating.
    ClearBatchMode,
    RestoreSnapshot { snapshot: u32 },
    DiscardSnapshot { snapshot: u32 },
}

/// An action as a mathematical value.
pub enum ActionModel {
    BeginBatch,
    Edit(StepModel),
    EndBatch,
    ClearBatchMode,
    RestoreSnapshot { snapshot: u32 },
    DiscardSnapshot { snapshot: u32 },
}

impl<'a> View for EngineAction<'a> {
    type V = ActionModel;

    open spec fn view(&self) -> ActionModel {
        match *self {
            EngineAction::BeginBatch => ActionModel::BeginBatch,
            EngineAction::Edit(step) => ActionModel::Edit(step@),
            EngineAction::EndBatch => ActionModel::EndBatch,
            EngineAction::ClearBatchMode => ActionModel::ClearBatchMode,
            EngineAction::RestoreSnapshot { snapshot } => ActionModel::RestoreSnapshot { snapshot },
            EngineAction::DiscardSnapshot { snapshot } => ActionModel::DiscardSnapshot { snapshot },
        }
    }
}

/// A plan being carried out on a document of which a snapshot was saved.
#[derive(Debug)]
pub struct ApplyRun {
    plan: ApplyPlan,
    snapshot: u32,
    phase: RunPhase,
    failure: Option<EngineFailure>,
    rollback_failure: Option<EngineFailure>,
}

/// A run as a mathematical value.
pub struct RunModel {
    pub plan: PlanModel,
    pub snapshot: u32,
    pub phase: RunPhase,
    /// The error of the step that failed.
    pub failure: Option<FailureModel>,
    /// The error of restoring the snapshot.
    pub rollback_failure: Option<FailureModel>,
}

/// An optional error as a mathematical value.
pub open spec fn optional_failure(failure: Option<EngineFailure>) -> Option<FailureModel> {
    match failure {
        Some(f) => Some(f@),
        None => None,
    }
}

impl View for ApplyRun {
    type V = RunModel;

    closed spec fn view(&self) -> RunModel {
        RunModel {
            plan: self.plan@,
            snapshot: self.snapshot,
            phase: self.phase,
            failure: optional_failure(self.failure),
            rollback_failure: optional_failure(self.rollback_failure),
        }
    }
}

/// What is asked of the engine after the batch has begun or a step has gone well.
pub open spec fn phase_at(script: Seq<StepModel>, i: nat) -> RunPhase {
    if i < script.len() {
        RunPhase::Edit(i as usize)
    } else {
        RunPhase::EndBatch
    }
}

impl RunModel {
    /// The run of a plan from its beginning.
    pub open spec fn begun(plan: PlanModel, snapshot: u32) -> RunModel {
        RunModel {
            plan,
            snapshot,
            phase: RunPhase::BeginBatch,
            failure: None,
            rollback_failure: None,
        }
    }

    /// A step to take is one of the script; nothing has failed while the plan is carried out; and
    /// only what has failed is rolled back.
    pub open spec fn valid(self) -> bool {
        &&& self.plan.script.len() <= usize::MAX
        &&& match self.phase {
            RunPhase::BeginBatch => self.failure is None && self.rollback_failure is None,
            RunPhase::Edit(i) => i < self.plan.script.len() && self.failure is None
                && self.rollback_failure is None,
            RunPhase::EndBatch => self.failure is None && self.rollback_failure is None,
            RunPhase::ClearBatchMode => self.failure is Some && self.rollback_failure is None,
            RunPhase::RestoreSnapshot => self.failure is Some && self.rollback_failure is None,
            RunPhase::DiscardSnapshot => self.rollback_failure is Some ==> self.failure is Some,
            RunPhase::Closed => self.rollback_failure is Some ==> self.failure is Some,
        }
    }

    /// What the engine is to do next; nothing once the run is closed.
    pub open spec fn action(self) -> Option<ActionModel> {
        match self.phase {
            RunPhase::BeginBatch => Some(ActionModel::BeginBatch),
            RunPhase::Edit(i) => Some(ActionModel::Edit(self.plan.script[i as int])),
            RunPhase::EndBatch => Some(ActionModel::EndBatch),
            RunPhase::ClearBatchMode => Some(ActionModel::ClearBatchMode),
            RunPhase::RestoreSnapshot => Some(
                ActionModel::RestoreSnapshot { snapshot: self.snapshot },
            ),
            RunPhase::DiscardSnapshot => Some(
                ActionModel::DiscardSnapshot { snapshot: self.snapshot },
            ),
            RunPhase::Closed => None,
        }
    }

    /// The run after the engine has answered, with its error where it failed.
    ///
    /// A batch that does not begin leaves nothing to restore. Any later failure ends batch mode
    /// and restores the snapshot. The snapshot is discarded in every case.
    pub open spec fn next(self, error: Option<FailureModel>) -> RunModel {
        match self.phase {
            RunPhase::BeginBatch => match error {
                None => RunModel { phase: phase_at(self.plan.script, 0), ..self },
                Some(_) => RunModel { phase: RunPhase::DiscardSnapshot, failure: error, ..self },
            },
            RunPhase::Edit(i) => match error {
                None => RunModel { phase: phase_at(self.plan.script, i as nat + 1), ..self },
                Some(_) => RunModel { phase: RunPhase::ClearBatchMode, failure: error, ..self },
            },
            RunPhase::EndBatch => match error {
                None => RunModel { phase: RunPhase::DiscardSnapshot, ..self },
                Some(_) => RunModel { phase: RunPhase::ClearBatchMode, failure: error, ..self },
            },
            RunPhase::ClearBatchMode => RunModel { phase: RunPhase::RestoreSnapshot, ..self },
            RunPhase::RestoreSnapshot => RunModel {
                phase: RunPhase::DiscardSnapshot,
                rollback_failure: error,
                ..self
            },
            RunPhase::DiscardSnapshot => RunModel { phase: RunPhase::Closed, ..self },
            RunPhase::Closed => self,
        }
    }

    /// The paragraphs whose pages the answer names.
    pub open spec fn paragraphs_to_name(self) -> Seq<(usize, usize)> {
        if self.failure is None && self.plan.updated > 0 {
            self.plan.changed_paragraphs
        } else {
            seq![]
        }
    }

    /// What is answered once the run is closed, where the changed paragraphs stand on `pages`: what
    /// was changed, or the error.
    pub open spec fn concluded(self, pages: Seq<u32>) -> Result<JsonTree, ErrorModel> {
        match self.failure {
            None => Ok(
                apply_tree(
                    true,
                    self.plan.updated,
                    if self.plan.updated > 0 {
                        pages
                    } else {
                        seq![]
                    },
                    self.plan.warnings,
                    self.plan.overflow_targets,
                    seq![],
                    None,
                ),
            ),
            Some(failure) => match self.rollback_failure {
                None => Err(failure.error),
                Some(rollback_failure) => Err(
                    ErrorModel::RenderError(
                        "승인 템플릿 적용 실패 후 rollback도 실패했습니다: "@ + failure.display + "; "@
                            + rollback_failure.display,
                    ),
                ),
            },
        }
    }
}

/// The error of an answer, if there is one.
pub open spec fn error_of(reply: Result<(), EngineFailure>) -> Option<FailureModel> {
    match reply {
        Ok(_) => None,
        Err(error) => Some(error@),
    }
}

impl ApplyRun {
    /// Begins to carry out a plan on a document of which the given snapshot was saved.
    pub fn begin(plan: ApplyPlan, snapshot: u32) -> (run: ApplyRun)
        ensures
            run@ == RunModel::begun(plan@, snapshot),
            run@.valid(),
    {
        assert(views(plan.script@).len() == plan.script.len());
        ApplyRun {
            plan,
            snapshot,
            phase: RunPhase::BeginBatch,
            failure: None,
            rollback_failure: None,
        }
    }

    /// What the engine is to do next; nothing once the run is closed.
    pub fn action(&self) -> (action: Option<EngineAction<'_>>)
        requires
            self@.valid(),
        ensures
            match self@.action() {
                Some(wanted) => action matches Some(a) && a@ == wanted,
                None => action is None,
            },
    {
        match self.phase {
            RunPhase::BeginBatch => Some(EngineAction::BeginBatch),
            RunPhase::Edit(i) => Some(EngineAction::Edit(&self.plan.script[i])),
            RunPhase::EndBatch => Some(EngineAction::EndBatch),
            RunPhase::ClearBatchMode => Some(EngineAction::ClearBatchMode),
            RunPhase::RestoreSnapshot => Some(
                EngineAction::RestoreSnapshot { snapshot: self.snapshot },
            ),
            RunPhase::DiscardSnapshot => Some(
                EngineAction::DiscardSnapshot { snapshot: self.snapshot },
            ),
            RunPhase::Closed => None,
        }
    }

    /// Takes the engine's answer to the current action.
    pub fn advance(&mut self, reply: Result<(), EngineFailure>)
        requires
            old(self)@.valid(),
        ensures
            final(self)@ == old(self)@.next(error_of(reply)),
            final(self)@.valid(),
    {
        proof {
            assert(views(self.plan.script@).len() == self.plan.script@.len());
        }
        match self.phase {
            RunPhase::BeginBatch => match reply {
                Ok(_) => {
                    self.phase = if self.plan.script.len() > 0 {
                        RunPhase::Edit(0)
                    } else {
                        RunPhase::EndBatch
                    };
                },
                Err(error) => {
                    self.failure = Some(error);
                    self.phase = RunPhase::DiscardSnapshot;
                },
            },
            RunPhase::Edit(i) => match reply {
                Ok(_) => {
                    self.phase = if i + 1 < self.plan.script.len() {
                        RunPhase::Edit(i + 1)
                    } else {
                        RunPhase::EndBatch
                    };
                },
                Err(error) => {
                    self.failure = Some(error);
                    self.phase = RunPhase::ClearBatchMode;
                },
            },
            RunPhase::EndBatch => match reply {
                Ok(_) => {
                    self.phase = RunPhase::DiscardSnapshot;
                },
                Err(error) => {
                    self.failure = Some(error);
                    self.phase = RunPhase::ClearBatchMode;
                },
            },
            RunPhase::ClearBatchMode => {
                self.phase = RunPhase::RestoreSnapshot;
            },
            RunPhase::RestoreSnapshot => {
                match reply {
                    Ok(_) => {},
                    Err(error) => {
                        self.rollback_failure = Some(error);
                    },
                }
                self.phase = RunPhase::DiscardSnapshot;
            },
            RunPhase::DiscardSnapshot => {
                self.phase = RunPhase::Closed;
            },
            RunPhase::Closed => {},
        }
    }

    /// The paragraphs whose pages the answer names; none where nothing was changed.
    pub fn changed_paragraphs(&self) -> (paragraphs: Vec<(usize, usize)>)
        ensures
            paragraphs@ == if self@.plan.updated == 0 || self@.failure is Some {
                Seq::<(usize, usize)>::empty()
            } else {
                self@.plan.changed_paragraphs
            },
            paragraphs@ == self@.paragraphs_to_name(),
    {
        if self.plan.updated == 0 || self.failure.is_some() {
            return Vec::new();
        }
        let mut paragraphs: Vec<(usize, usize)> = Vec::new();
        let mut i: usize = 0;
        while i < self.plan.changed_paragraphs.len()
            invariant
                i <= self.plan.changed_paragraphs@.len(),
                paragraphs@ == self.plan.changed_paragraphs@.take(i as int),
            decreases self.plan.changed_paragraphs@.len() - i,
        {
            paragraphs.push(self.plan.changed_paragraphs[i]);
            assert(paragraphs@ =~= self.plan.changed_paragraphs@.take(i + 1));
            i += 1;
        }
        assert(paragraphs@ =~= self.plan.changed_paragraphs@);
        paragraphs
    }

    /// The answer to a request whose run is closed: what was changed, where all went well; else
    /// the very error of the step that failed, or, where the rollback failed too, an error that
    /// displays both.
    ///
    /// `pages` are those that the changed paragraphs stand on.
    pub fn conclude(self, pages: Vec<u32>) -> (answer: Result<String, HwpError>)
        requires
            self@.valid(),
            self@.phase == RunPhase::Closed,
        ensures
            match (self@.failure, self@.rollback_failure) {
                (None, _) => answer matches Ok(text) && text@ == json_text(
                    apply_tree(
                        true,
                        self@.plan.updated,
                        if self@.plan.updated == 0 {
                            Seq::<u32>::empty()
                        } else {
                            pages@
                        },
                        self@.plan.warnings,
                        self@.plan.overflow_targets,
                        seq![],
                        None,
                    ),
                ),
                (Some(failure), None) => answer matches Err(error) && error@ == failure.error,
                (Some(failure), Some(rollback_failure)) => answer matches Err(error) && error@
                    == ErrorModel::RenderError(
                    "승인 템플릿 적용 실패 후 rollback도 실패했습니다: "@ + failure.display + "; "@
                        + rollback_failure.display,
                ),
            },
            match self@.concluded(pages@) {
                Ok(tree) => answer matches Ok(text) && text@ == json_text(tree),
                Err(wanted) => answer matches Err(error) && error@ == wanted,
            },
    {
        match self.failure {
            None => {
                let changed_pages: Vec<u32> = if self.plan.updated == 0 {
                    Vec::new()
                } else {
                    pages
                };
                Ok(
                    json_to_string(
                        &applied_result(
                            self.plan.updated,
                            changed_pages,
                            self.plan.warnings,
                            self.plan.overflow_targets,
                        ),
                    ),
                )
            },
            Some(failure) => match self.rollback_failure {
                None => Err(failure.error),
                Some(rollback_failure) => {
                    let mut message: String =
                        "승인 템플릿 적용 실패 후 rollback도 실패했습니다: ".to_owned();
                    message.append(failure.display.as_str());
                    message.append("; ");
                    message.append(rollback_failure.display.as_str());
                    Err(HwpError::RenderError(message))
                },
            },
        }
    }
}

} // verus!
