//! Checking a request against a document without changing the document.

use vstd::prelude::*;
use vstd::string::{StrSliceExecFns, StringExecFns};
use vstd::utf8::encode_utf8;

use crate::digest::{approved_structure_digest, digest_text, structure_bytes};
use crate::edit::{EditModel, HwpError, ResolvedEdit};
use crate::json::{json_text, json_to_string};
use crate::label::{
    adjacent_bytes, adjacent_label_digest, body_adjacent_bytes, body_adjacent_label_digest,
    preflight_token, text_hash, text_hash_of, token_bytes,
};
use crate::model::{DocumentCore, FieldEntry, Paragraph, Table};
use crate::protection::{
    complexity_stats, document_counts, protection_status, status_of, ProtectionStatus,
};
use crate::report::{
    deduplicate_rejections, distinct, failed_preflight_result, failed_report, optional_text,
    rejected_target, report_json, report_tree, views, CellOverflow, FailureReason, OverflowMeasure,
    OverflowModel, OverflowTarget, PreflightReport, RejectReason, Rejection, RejectionModel,
    ReportModel, SummaryModel, TargetSummary, Warning, WarningCode, WarningModel,
};
use crate::request::{
    ApprovedEditTargetV1, ApprovedTemplateEditRequestV1, EncodedRequest, TargetAddress,
};
use crate::table::{
    blocked_reasons_of, body_paragraph_is_safe, cell_blocked_reasons, cell_of, find_table,
    lemma_anchored, locate_cell, place_of, plain_body, resolved_at, table_at, CellFault,
    ResolvedCellModel, ResolvedTableCell,
};
use crate::text::{
    has_unsafe_text_control, line_count, safe_id, safe_target_id, unsafe_control, value_line_count,
};

verus! {

/// The most targets that a request may name.
pub const MAX_TARGETS: usize = 100;

/// The most characters that a value may have.
pub const MAX_VALUE_CHARS: usize = 20_000;

/// The most lines that a target may allow.
pub const MAX_VALUE_LINES: usize = 1_000;

/// The most bytes that a request may have.
pub const MAX_REQUEST_BYTES: usize = 1_000_000;

/// What layout says of a request: how far the value of its table cell overflows, if it does, and
/// which pages the paragraphs that it would change stand on.
#[derive(Debug)]
pub struct LayoutReport {
    pub overflow: Option<CellOverflow>,
    pub changed_pages: Vec<u32>,
}

/// What layout says, as a mathematical value.
pub struct LayoutModel {
    pub overflow: Option<OverflowMeasure>,
    pub changed_pages: Seq<u32>,
}

/// An optional overflow as a mathematical value.
pub open spec fn measured(overflow: Option<CellOverflow>) -> Option<OverflowMeasure> {
    match overflow {
        Some(o) => Some(o@),
        None => None,
    }
}

impl View for LayoutReport {
    type V = LayoutModel;

    open spec fn view(&self) -> LayoutModel {
        LayoutModel { overflow: measured(self.overflow), changed_pages: self.changed_pages@ }
    }
}

/// The outcome of checking a request.
#[derive(Debug)]
pub struct PreflightState {
    pub report: PreflightReport,
    pub edits: Vec<ResolvedEdit>,
    pub changed_paragraphs: Vec<(usize, usize)>,
    pub token: Option<String>,
}

/// The outcome as a mathematical value.
pub struct PreflightModel {
    pub report: ReportModel,
    pub edits: Seq<EditModel>,
    pub changed_paragraphs: Seq<(usize, usize)>,
    pub token: Option<Seq<char>>,
}

impl View for PreflightState {
    type V = PreflightModel;

    open spec fn view(&self) -> PreflightModel {
        PreflightModel {
            report: self.report@,
            edits: views(self.edits@),
            changed_paragraphs: self.changed_paragraphs@,
            token: optional_text(self.token),
        }
    }
}

/// The rejection of `target`.
pub open spec fn rejection(target: ApprovedEditTargetV1, reason: RejectReason) -> RejectionModel {
    RejectionModel { target_id: target.id_text(), reason }
}

/// The rejection of `target`, if it is due.
pub open spec fn rejected_if(
    due: bool,
    target: ApprovedEditTargetV1,
    reason: RejectReason,
) -> Seq<RejectionModel> {
    if due {
        seq![rejection(target, reason)]
    } else {
        seq![]
    }
}

/// The rejection of every target.
pub open spec fn rejected_all(
    targets: Seq<ApprovedEditTargetV1>,
    reason: RejectReason,
) -> Seq<RejectionModel> {
    targets.map_values(|target: ApprovedEditTargetV1| rejection(target, reason))
}

/// A request has the schema version 1, a safe template identifier, and one to `MAX_TARGETS`
/// targets.
pub open spec fn well_shaped(request: ApprovedTemplateEditRequestV1) -> bool {
    &&& request.schema_version == 1
    &&& safe_id(request.template_id@)
    &&& 0 < request.targets@.len() <= MAX_TARGETS
}

/// The identifier of the target is not safe, or an earlier target bears it.
pub open spec fn id_fault(targets: Seq<ApprovedEditTargetV1>, i: int) -> bool {
    ||| !safe_id(targets[i].id_text())
    ||| exists|j: int| 0 <= j < i && (#[trigger] targets[j]).id_text() == targets[i].id_text()
}

/// An earlier target names the same place.
pub open spec fn address_fault(targets: Seq<ApprovedEditTargetV1>, i: int) -> bool {
    exists|j: int| 0 <= j < i && (#[trigger] targets[j]).place() == targets[i].place()
}

/// The character limit of the target is out of range, or its value passes it or holds a
/// character that no value may hold.
pub open spec fn value_fault(target: ApprovedEditTargetV1) -> bool {
    ||| target.char_limit() == 0
    ||| target.char_limit() > MAX_VALUE_CHARS
    ||| target.value_text().len() > target.char_limit()
    ||| exists|i: int|
        0 <= i < target.value_text().len() && unsafe_control(#[trigger] target.value_text()[i])
}

/// The line limit of the target is out of range.
pub open spec fn line_limit_fault(target: ApprovedEditTargetV1) -> bool {
    target.line_limit() == 0 || target.line_limit() > MAX_VALUE_LINES
}

/// The rejections that the form of one target brings.
pub open spec fn form_rejections_at(targets: Seq<ApprovedEditTargetV1>, i: int) -> Seq<
    RejectionModel,
> {
    rejected_if(
        id_fault(targets, i),
        targets[i],
        RejectReason::InvalidOrDuplicateTargetId,
    ) + rejected_if(value_fault(targets[i]), targets[i], RejectReason::InvalidValue) + rejected_if(
        line_limit_fault(targets[i]),
        targets[i],
        RejectReason::InvalidMaxLines,
    ) + rejected_if(
        !line_limit_fault(targets[i]) && line_count(targets[i].value_text())
            > targets[i].line_limit(),
        targets[i],
        RejectReason::MaxLinesExceeded,
    ) + rejected_if(
        address_fault(targets, i),
        targets[i],
        RejectReason::DuplicateTargetAddress,
    )
}

/// The rejections that the form of the first `n` targets brings.
pub open spec fn form_rejections(targets: Seq<ApprovedEditTargetV1>, n: nat) -> Seq<RejectionModel>
    decreases n,
{
    if n == 0 {
        seq![]
    } else {
        form_rejections(targets, (n - 1) as nat) + form_rejections_at(targets, n - 1)
    }
}

/// A request edits native fields only, or one body paragraph, or one cell.
pub open spec fn one_kind(targets: Seq<ApprovedEditTargetV1>) -> bool {
    ||| targets.len() == 1
    ||| forall|i: int| 0 <= i < targets.len() ==> (#[trigger] targets[i]) is NativeField
}

/// The structure digest of the open document.
pub open spec fn digest_of(core: DocumentCore) -> Seq<char> {
    digest_text(structure_bytes(core.document))
}

/// Whether the open document is protected.
pub open spec fn protected(core: DocumentCore) -> bool {
    status_of(core.page_count, document_counts(core.document).reported())
        == ProtectionStatus::Protected
}

/// The rejections that come before any target is looked up.
pub open spec fn gate_rejections(
    core: DocumentCore,
    request: ApprovedTemplateEditRequestV1,
) -> Seq<RejectionModel> {
    let targets = request.targets@;
    form_rejections(targets, targets.len()) + (if one_kind(targets) {
        seq![]
    } else {
        rejected_all(targets, RejectReason::MixedOrMultipleVirtualTargets)
    }) + (if protected(core) {
        rejected_all(targets, RejectReason::ProtectedDocument)
    } else {
        seq![]
    }) + (if request.expected_structure_digest@ == digest_of(core) {
        seq![]
    } else {
        rejected_all(targets, RejectReason::StructureMismatch)
    })
}

/// What looking up targets yields.
pub struct ResolutionModel {
    pub rejected: Seq<RejectionModel>,
    pub warnings: Seq<WarningModel>,
    pub overflow_targets: Seq<OverflowModel>,
    pub edits: Seq<EditModel>,
    pub changed_paragraphs: Seq<(usize, usize)>,
}

impl ResolutionModel {
    /// Nothing yielded.
    pub open spec fn none() -> ResolutionModel {
        ResolutionModel {
            rejected: seq![],
            warnings: seq![],
            overflow_targets: seq![],
            edits: seq![],
            changed_paragraphs: seq![],
        }
    }

    /// One target rejected.
    pub open spec fn refused(
        target: ApprovedEditTargetV1,
        reason: RejectReason,
    ) -> ResolutionModel {
        ResolutionModel { rejected: seq![rejection(target, reason)], ..ResolutionModel::none() }
    }

    /// One target accepted.
    pub open spec fn accepted(edit: EditModel, paragraph: (usize, usize)) -> ResolutionModel {
        ResolutionModel {
            edits: seq![edit],
            changed_paragraphs: seq![paragraph],
            ..ResolutionModel::none()
        }
    }

    /// What both yield, in order.
    pub open spec fn then_also(self, next: ResolutionModel) -> ResolutionModel {
        ResolutionModel {
            rejected: self.rejected + next.rejected,
            warnings: self.warnings + next.warnings,
            overflow_targets: self.overflow_targets + next.overflow_targets,
            edits: self.edits + next.edits,
            changed_paragraphs: self.changed_paragraphs + next.changed_paragraphs,
        }
    }
}

/// The first field from the `from`th on that bears the given identifier.
pub open spec fn field_from(fields: Seq<FieldEntry>, field_id: u32, from: int) -> Option<int>
    decreases fields.len() - from,
{
    if from < 0 || from >= fields.len() {
        None
    } else if fields[from].field.field_id == field_id {
        Some(from)
    } else {
        field_from(fields, field_id, from + 1)
    }
}

/// A text is neither the one that was expected nor already the one to be written.
pub open spec fn unexpected(text: Seq<char>, expected_hash: Seq<char>, value: Seq<char>) -> bool {
    text_hash_of(text) != expected_hash && text != value
}

/// What looking up one target yields, where `overflow` is how far its value overflows its cell.
pub open spec fn resolution_of(
    core: DocumentCore,
    target: ApprovedEditTargetV1,
    overflow: Option<OverflowMeasure>,
) -> ResolutionModel {
    match target {
        ApprovedEditTargetV1::NativeField {
            target_id,
            field_id,
            expected_value_hash,
            value,
            ..
        } => match field_from(core.fields@, field_id, 0) {
            None => ResolutionModel::refused(target, RejectReason::UnknownField),
            Some(f) => {
                let entry = core.fields@[f];
                if entry.field.ctrl_id == 0 || !entry.editable_in_form {
                    ResolutionModel::refused(target, RejectReason::UnsupportedField)
                } else if unexpected(entry.value@, expected_value_hash@, value@) {
                    ResolutionModel::refused(target, RejectReason::TargetTextMismatch)
                } else {
                    ResolutionModel::accepted(
                        EditModel::NativeField {
                            target_id: target_id@,
                            field_id,
                            old_value: entry.value@,
                            value: value@,
                        },
                        (entry.section_index, entry.para_index),
                    )
                }
            },
        },
        ApprovedEditTargetV1::BodyPlaceholder {
            target_id,
            section_index,
            paragraph_index,
            expected_text_hash,
            adjacent_label_digest,
            value,
            ..
        } => {
            let sections = core.document.sections@;
            let paragraphs = sections[section_index as int].paragraphs@;
            let paragraph = paragraphs[paragraph_index as int];
            if section_index >= sections.len() || paragraph_index >= paragraphs.len() {
                ResolutionModel::refused(target, RejectReason::UnknownBodyParagraph)
            } else if !plain_body(paragraph) {
                ResolutionModel::refused(target, RejectReason::MixedBodyContent)
            } else if unexpected(paragraph.text@, expected_text_hash@, value@) {
                ResolutionModel::refused(target, RejectReason::TargetTextMismatch)
            } else if digest_text(body_adjacent_bytes(paragraphs, paragraph_index as int))
                != adjacent_label_digest@ {
                ResolutionModel::refused(target, RejectReason::AdjacentLabelMismatch)
            } else {
                ResolutionModel::accepted(
                    EditModel::BodyPlaceholder {
                        target_id: target_id@,
                        section_index,
                        paragraph_index,
                        old_value: paragraph.text@,
                        value: value@,
                    },
                    (section_index, paragraph_index),
                )
            }
        },
        ApprovedEditTargetV1::TableCell {
            target_id,
            table_index,
            row,
            col,
            expected_text_hash,
            adjacent_label_digest,
            merged_anchor,
            value,
            max_lines,
            keep_style,
            ..
        } => if !keep_style || merged_anchor.row != row || merged_anchor.col != col {
            ResolutionModel::refused(target, RejectReason::UnsafeCellOptions)
        } else {
            match place_of(core.document, table_index, row, col) {
                Err(CellFault::Covered { .. }) => ResolutionModel::refused(
                    target,
                    RejectReason::CoveredMergedCell,
                ),
                Err(fault) => ResolutionModel::refused(
                    target,
                    if fault.is_usage() {
                        RejectReason::InvalidCellAddress
                    } else {
                        RejectReason::UnknownOrNestedTable
                    },
                ),
                Ok(place) => {
                    let resolved = resolved_at(core.document, place);
                    let table = table_at(
                        core.document,
                        place.grid.section as int,
                        place.grid.paragraph as int,
                        place.grid.control as int,
                    )->0;
                    let edit = EditModel::TableCell {
                        target_id: target_id@,
                        resolved,
                        old_value: resolved.old_text,
                        value: value@,
                    };
                    let paragraph = (place.grid.section, place.grid.paragraph);
                    if blocked_reasons_of(cell_of(core.document, place)).len() > 0 {
                        ResolutionModel::refused(target, RejectReason::MixedCellContent)
                    } else if unexpected(resolved.old_text, expected_text_hash@, value@) {
                        ResolutionModel::refused(target, RejectReason::TargetTextMismatch)
                    } else if digest_text(adjacent_bytes(table, row, col))
                        != adjacent_label_digest@ {
                        ResolutionModel::refused(target, RejectReason::AdjacentLabelMismatch)
                    } else {
                        match overflow {
                            None => ResolutionModel::accepted(edit, paragraph),
                            Some(measure) => {
                                let overflowing = OverflowModel {
                                    target_id: target_id@,
                                    overflow: measure,
                                    max_lines,
                                };
                                if measure.lines > max_lines {
                                    ResolutionModel {
                                        overflow_targets: seq![overflowing],
                                        ..ResolutionModel::refused(
                                            target,
                                            RejectReason::ConfirmedOverflow,
                                        )
                                    }
                                } else {
                                    ResolutionModel {
                                        overflow_targets: seq![overflowing],
                                        warnings: seq![
                                            WarningModel {
                                                target_id: Some(target_id@),
                                                code: WarningCode::CellWrapExpected,
                                            },
                                        ],
                                        ..ResolutionModel::accepted(edit, paragraph)
                                    }
                                }
                            },
                        }
                    }
                },
            }
        },
    }
}

/// What looking up a run of targets yields.
pub open spec fn resolutions_of(
    core: DocumentCore,
    targets: Seq<ApprovedEditTargetV1>,
    overflow: Option<OverflowMeasure>,
) -> ResolutionModel
    decreases targets.len(),
{
    if targets.len() == 0 {
        ResolutionModel::none()
    } else {
        resolutions_of(core, targets.drop_last(), overflow).then_also(
            resolution_of(core, targets.last(), overflow),
        )
    }
}

/// Whether `a` comes before `b`: by section, then by paragraph.
pub open spec fn before(a: (usize, usize), b: (usize, usize)) -> bool {
    a.0 < b.0 || (a.0 == b.0 && a.1 < b.1)
}

/// `pairs`, which ascend, with `pair` put in its place unless it is there.
pub open spec fn inserted(pairs: Seq<(usize, usize)>, pair: (usize, usize)) -> Seq<(usize, usize)>
    decreases pairs.len(),
{
    if pairs.len() == 0 || before(pairs.last(), pair) {
        pairs.push(pair)
    } else if pairs.last() == pair {
        pairs
    } else {
        inserted(pairs.drop_last(), pair).push(pairs.last())
    }
}

/// The same pairs in ascending order, each once.
pub open spec fn ascending(pairs: Seq<(usize, usize)>) -> Seq<(usize, usize)>
    decreases pairs.len(),
{
    if pairs.len() == 0 {
        seq![]
    } else {
        inserted(ascending(pairs.drop_last()), pairs.last())
    }
}

/// The summary of an edit.
pub open spec fn summary_of(edit: EditModel) -> SummaryModel {
    SummaryModel {
        target_id: edit.id_text(),
        original_value: edit.old_text(),
        proposed_value: edit.value_text(),
        changed: edit.changes(),
    }
}

/// A failed check: nothing to apply.
pub open spec fn failed(report: ReportModel) -> PreflightModel {
    PreflightModel { report, edits: seq![], changed_paragraphs: seq![], token: None }
}

/// The outcome of a check in which some target was looked up in vain.
pub open spec fn refused_outcome(resolution: ResolutionModel) -> PreflightModel {
    failed(
        ReportModel {
            warnings: resolution.warnings,
            overflow_targets: resolution.overflow_targets,
            ..failed_report(FailureReason::PreflightRejected, distinct(resolution.rejected))
        },
    )
}

/// The outcome of a check that every target passed.
pub open spec fn accepted_outcome(
    resolution: ResolutionModel,
    changed_pages: Seq<u32>,
    token: Seq<char>,
) -> PreflightModel {
    PreflightModel {
        report: ReportModel {
            ok: true,
            changed_pages: Some(changed_pages),
            preflight_token: Some(token),
            targets: resolution.edits.map_values(|edit: EditModel| summary_of(edit)),
            warnings: if changed_pages.len() == 0 {
                resolution.warnings
            } else {
                resolution.warnings.push(
                    WarningModel { target_id: None, code: WarningCode::ChangedPagesConservative },
                )
            },
            overflow_targets: resolution.overflow_targets,
            rejected_targets: seq![],
            reason: None,
        },
        edits: resolution.edits,
        changed_paragraphs: ascending(resolution.changed_paragraphs),
        token: Some(token),
    }
}

/// The outcome of checking a decoded request, or the text of the error.
pub open spec fn outcome_of(
    core: DocumentCore,
    encoded: EncodedRequest,
    layout: LayoutModel,
) -> Result<PreflightModel, Seq<char>> {
    let request = encoded.request;
    let gate = gate_rejections(core, request);
    let resolution = resolutions_of(core, request.targets@, layout.overflow);
    if !well_shaped(request) {
        Ok(failed(failed_report(FailureReason::InvalidRequest, seq![])))
    } else if gate.len() > 0 {
        Ok(failed(failed_report(FailureReason::PreflightRejected, distinct(gate))))
    } else if resolution.rejected.len() > 0 {
        Ok(refused_outcome(resolution))
    } else {
        match encoded.encoding {
            Ok(bytes) => Ok(
                accepted_outcome(
                    resolution,
                    layout.changed_pages,
                    digest_text(token_bytes(digest_of(core), bytes@)),
                ),
            ),
            Err(error) => Err("preflight token 생성 실패: "@ + error@),
        }
    }
}

/// The outcome of checking a request, or the text of the error.
///
/// A request that is too long is invalid whatever it holds; one that cannot be decoded is an
/// error.
pub open spec fn preflight_of(
    core: DocumentCore,
    request_json: Seq<char>,
    decoded: Result<EncodedRequest, String>,
    layout: LayoutModel,
) -> Result<PreflightModel, Seq<char>> {
    if encode_utf8(request_json).len() > MAX_REQUEST_BYTES {
        Ok(failed(failed_report(FailureReason::InvalidRequest, seq![])))
    } else {
        match decoded {
            Ok(encoded) => outcome_of(core, encoded, layout),
            Err(error) => Err("승인 편집 요청 JSON 오류: "@ + error@),
        }
    }
}

/// What looking up targets has yielded so far.
struct Resolution {
    rejected: Vec<Rejection>,
    warnings: Vec<Warning>,
    overflow_targets: Vec<OverflowTarget>,
    edits: Vec<ResolvedEdit>,
    changed_paragraphs: Vec<(usize, usize)>,
}

impl View for Resolution {
    type V = ResolutionModel;

    closed spec fn view(&self) -> ResolutionModel {
        ResolutionModel {
            rejected: views(self.rejected@),
            warnings: views(self.warnings@),
            overflow_targets: views(self.overflow_targets@),
            edits: views(self.edits@),
            changed_paragraphs: self.changed_paragraphs@,
        }
    }
}

/// Appending an item appends what it stands for.
broadcast proof fn lemma_views_push<T: View>(items: Seq<T>, item: T)
    ensures
        #[trigger] views(items.push(item)) == views(items).push(item@),
{
    assert(views(items.push(item)) =~= views(items).push(item@));
}

impl Resolution {
    /// Nothing yielded.
    fn none() -> (empty: Resolution)
        ensures
            empty@ == ResolutionModel::none(),
    {
        let empty: Resolution = Resolution {
            rejected: Vec::new(),
            warnings: Vec::new(),
            overflow_targets: Vec::new(),
            edits: Vec::new(),
            changed_paragraphs: Vec::new(),
        };
        assert(empty@.rejected =~= seq![]);
        assert(empty@.warnings =~= seq![]);
        assert(empty@.overflow_targets =~= seq![]);
        assert(empty@.edits =~= seq![]);
        assert(empty@.changed_paragraphs =~= seq![]);
        empty
    }

    /// Rejects one target.
    fn refuse(&mut self, target: &ApprovedEditTargetV1, reason: RejectReason)
        ensures
            final(self)@ == old(self)@.then_also(ResolutionModel::refused(*target, reason)),
    {
        broadcast use lemma_views_push;

        self.rejected.push(rejected_target(target.target_id(), reason));
        let ghost wanted = old(self)@.then_also(ResolutionModel::refused(*target, reason));
        assert(self@.rejected =~= wanted.rejected);
        assert(self@.warnings =~= wanted.warnings);
        assert(self@.overflow_targets =~= wanted.overflow_targets);
        assert(self@.edits =~= wanted.edits);
        assert(self@.changed_paragraphs =~= wanted.changed_paragraphs);
    }

    /// Accepts one target.
    fn accept(&mut self, edit: ResolvedEdit, paragraph: (usize, usize))
        ensures
            final(self)@ == old(self)@.then_also(ResolutionModel::accepted(edit@, paragraph)),
    {
        broadcast use lemma_views_push;

        self.edits.push(edit);
        self.changed_paragraphs.push(paragraph);
        let ghost wanted = old(self)@.then_also(ResolutionModel::accepted(edit@, paragraph));
        assert(self@.rejected =~= wanted.rejected);
        assert(self@.warnings =~= wanted.warnings);
        assert(self@.overflow_targets =~= wanted.overflow_targets);
        assert(self@.edits =~= wanted.edits);
        assert(self@.changed_paragraphs =~= wanted.changed_paragraphs);
    }
}

impl Resolution {
    /// Warns that the value of a target will be wrapped.
    fn warn(&mut self, target_id: String)
        ensures
            final(self)@ == (ResolutionModel {
                warnings: old(self)@.warnings.push(
                    WarningModel {
                        target_id: Some(target_id@),
                        code: WarningCode::CellWrapExpected,
                    },
                ),
                ..old(self)@
            }),
    {
        broadcast use lemma_views_push;

        self.warnings.push(
            Warning { target_id: Some(target_id), code: WarningCode::CellWrapExpected },
        );
    }

    /// Notes that the value of a target overflows its cell.
    fn overflowing(&mut self, target: OverflowTarget)
        ensures
            final(self)@ == (ResolutionModel {
                overflow_targets: old(self)@.overflow_targets.push(target@),
                ..old(self)@
            }),
    {
        broadcast use lemma_views_push;

        self.overflow_targets.push(target);
    }
}

/// Rejects every target.
fn reject_all(
    rejected: &mut Vec<Rejection>,
    targets: &Vec<ApprovedEditTargetV1>,
    reason: RejectReason,
)
    ensures
        views(final(rejected)@) == views(old(rejected)@) + rejected_all(targets@, reason),
{
    broadcast use lemma_views_push;

    let ghost start = views(rejected@);
    let mut i: usize = 0;
    assert(start =~= start + rejected_all(targets@.take(0), reason));
    while i < targets.len()
        invariant
            i <= targets@.len(),
            views(rejected@) == start + rejected_all(targets@.take(i as int), reason),
        decreases targets@.len() - i,
    {
        broadcast use lemma_views_push;

        rejected.push(rejected_target(targets[i].target_id(), reason));
        assert(views(rejected@) =~= start + rejected_all(targets@.take(i + 1), reason));
        i += 1;
    }
    assert(targets@.take(targets@.len() as int) =~= targets@);
}

/// Whether an earlier target bears the same identifier.
fn repeats_id(targets: &Vec<ApprovedEditTargetV1>, i: usize) -> (repeats: bool)
    requires
        i < targets@.len(),
    ensures
        repeats == exists|j: int|
            0 <= j < i && (#[trigger] targets@[j]).id_text() == targets@[i as int].id_text(),
{
    let id: String = targets[i].target_id().to_owned();
    let mut j: usize = 0;
    while j < i
        invariant
            j <= i < targets@.len(),
            id@ == targets@[i as int].id_text(),
            forall|k: int| 0 <= k < j ==> (#[trigger] targets@[k]).id_text() != id@,
        decreases i - j,
    {
        if targets[j].target_id().to_owned() == id {
            assert(targets@[j as int].id_text() == targets@[i as int].id_text());
            return true;
        }
        j += 1;
    }
    false
}

/// Whether an earlier target names the same place.
fn repeats_address(targets: &Vec<ApprovedEditTargetV1>, i: usize) -> (repeats: bool)
    requires
        i < targets@.len(),
    ensures
        repeats == address_fault(targets@, i as int),
{
    let address: TargetAddress = targets[i].address();
    let mut j: usize = 0;
    while j < i
        invariant
            j <= i < targets@.len(),
            address == targets@[i as int].place(),
            forall|k: int| 0 <= k < j ==> (#[trigger] targets@[k]).place() != address,
        decreases i - j,
    {
        if targets[j].address() == address {
            assert(targets@[j as int].place() == targets@[i as int].place());
            return true;
        }
        j += 1;
    }
    false
}

/// Rejects the target if that is due.
fn reject_if(
    rejected: &mut Vec<Rejection>,
    due: bool,
    target: &ApprovedEditTargetV1,
    reason: RejectReason,
)
    ensures
        views(final(rejected)@) == views(old(rejected)@) + rejected_if(due, *target, reason),
{
    broadcast use lemma_views_push;

    if due {
        rejected.push(rejected_target(target.target_id(), reason));
    }
    assert(views(rejected@) =~= views(old(rejected)@) + rejected_if(due, *target, reason));
}

/// Checks the form of one target.
fn check_form(
    rejected: &mut Vec<Rejection>,
    targets: &Vec<ApprovedEditTargetV1>,
    i: usize,
)
    requires
        i < targets@.len(),
    ensures
        views(final(rejected)@) == views(old(rejected)@) + form_rejections_at(
            targets@,
            i as int,
        ),
{
    let target: &ApprovedEditTargetV1 = &targets[i];
    let bad_id: bool = !safe_target_id(target.target_id()) || repeats_id(targets, i);
    reject_if(rejected, bad_id, target, RejectReason::InvalidOrDuplicateTargetId);
    let value_chars: usize = target.value().unicode_len();
    let max_chars: usize = target.max_chars();
    let bad_value: bool = max_chars == 0 || max_chars > MAX_VALUE_CHARS || value_chars > max_chars
        || has_unsafe_text_control(target.value());
    reject_if(rejected, bad_value, target, RejectReason::InvalidValue);
    let max_lines: usize = target.max_lines();
    let bad_limit: bool = max_lines == 0 || max_lines > MAX_VALUE_LINES;
    reject_if(rejected, bad_limit, target, RejectReason::InvalidMaxLines);
    let too_long: bool = !bad_limit && value_line_count(target.value()) > max_lines;
    reject_if(rejected, too_long, target, RejectReason::MaxLinesExceeded);
    let bad_address: bool = repeats_address(targets, i);
    reject_if(rejected, bad_address, target, RejectReason::DuplicateTargetAddress);
    assert(views(rejected@) =~= views(old(rejected)@) + form_rejections_at(targets@, i as int));
}

/// Whether the targets may stand in one request.
fn is_one_kind(targets: &Vec<ApprovedEditTargetV1>) -> (yes: bool)
    ensures
        yes == one_kind(targets@),
{
    if targets.len() == 1 {
        return true;
    }
    let mut i: usize = 0;
    while i < targets.len()
        invariant
            i <= targets@.len(),
            targets@.len() != 1,
            forall|j: int| 0 <= j < i ==> (#[trigger] targets@[j]) is NativeField,
        decreases targets@.len() - i,
    {
        match &targets[i] {
            ApprovedEditTargetV1::NativeField { .. } => {},
            _ => {
                assert(!(targets@[i as int] is NativeField));
                return false;
            },
        }
        i += 1;
    }
    true
}

/// Whether a text is neither the one that was expected nor already the one to be written.
fn is_unexpected(text: &String, expected_hash: &String, value: &String) -> (yes: bool)
    ensures
        yes == unexpected(text@, expected_hash@, value@),
{
    !(text_hash(text.as_str()) == *expected_hash) && !(*text == *value)
}

/// Puts `pair` in its place among `pairs`, which ascend, unless it is there.
fn insert_pair(pairs: &mut Vec<(usize, usize)>, pair: (usize, usize))
    ensures
        final(pairs)@ == inserted(old(pairs)@, pair),
{
    let ghost all = pairs@;
    let mut at: usize = pairs.len();
    assert(all.take(all.len() as int) =~= all);
    assert(inserted(all, pair) =~= inserted(all.take(at as int), pair) + all.skip(at as int));
    while at > 0 && !(pairs[at - 1].0 < pair.0 || (pairs[at - 1].0 == pair.0 && pairs[at - 1].1
        < pair.1))
        invariant
            at <= all.len(),
            pairs@ == all,
            inserted(all, pair) == inserted(all.take(at as int), pair) + all.skip(at as int),
        decreases at,
    {
        proof {
            let head = all.take(at as int);
            assert(head.drop_last() =~= all.take(at - 1));
            assert(head.last() == all[at - 1]);
        }
        if pairs[at - 1].0 == pair.0 && pairs[at - 1].1 == pair.1 {
            proof {
                let head = all.take(at as int);
                assert(head.last() == pair);
                assert(inserted(head, pair) == head);
                assert(head + all.skip(at as int) =~= all);
            }
            return ;
        }
        proof {
            let head = all.take(at as int);
            assert(inserted(head, pair) == inserted(all.take(at - 1), pair).push(all[at - 1]));
            assert(inserted(all.take(at - 1), pair).push(all[at - 1]) + all.skip(at as int)
                =~= inserted(all.take(at - 1), pair) + all.skip(at - 1));
        }
        at -= 1;
    }
    proof {
        let head = all.take(at as int);
        assert(at > 0 ==> head.last() == all[at - 1]);
        assert(inserted(head, pair) == head.push(pair));
        assert(head.push(pair) + all.skip(at as int) =~= all.insert(at as int, pair));
    }
    pairs.insert(at, pair);
}

/// Sorts pairs in ascending order and drops repetitions.
fn sort_pairs(pairs: &Vec<(usize, usize)>) -> (sorted: Vec<(usize, usize)>)
    ensures
        sorted@ == ascending(pairs@),
{
    let mut sorted: Vec<(usize, usize)> = Vec::new();
    let mut i: usize = 0;
    assert(sorted@ =~= ascending(pairs@.take(0)));
    while i < pairs.len()
        invariant
            i <= pairs@.len(),
            sorted@ == ascending(pairs@.take(i as int)),
        decreases pairs@.len() - i,
    {
        assert(pairs@.take(i + 1).drop_last() =~= pairs@.take(i as int));
        insert_pair(&mut sorted, pairs[i]);
        i += 1;
    }
    assert(pairs@.take(pairs@.len() as int) =~= pairs@);
    sorted
}

/// Summarises edits.
fn summarise(edits: &Vec<ResolvedEdit>) -> (summaries: Vec<TargetSummary>)
    ensures
        views(summaries@) == views(edits@).map_values(|edit: EditModel| summary_of(edit)),
{
    let mut summaries: Vec<TargetSummary> = Vec::new();
    let mut i: usize = 0;
    while i < edits.len()
        invariant
            i <= edits@.len(),
            summaries@.len() == i,
            forall|j: int|
                0 <= j < i ==> (#[trigger] summaries@[j])@ == summary_of(edits@[j]@),
        decreases edits@.len() - i,
    {
        let edit: &ResolvedEdit = &edits[i];
        summaries.push(
            TargetSummary {
                target_id: edit.target_id().to_owned(),
                original_value: edit.old_value().clone(),
                proposed_value: edit.value().clone(),
                changed: !(*edit.old_value() == *edit.value()),
            },
        );
        i += 1;
    }
    assert(views(summaries@) =~= views(edits@).map_values(|edit: EditModel| summary_of(edit)));
    summaries
}

/// The outcome of a failed check.
fn failed_state(report: PreflightReport) -> (state: PreflightState)
    ensures
        state@ == failed(report@),
{
    let state: PreflightState = PreflightState {
        report,
        edits: Vec::new(),
        changed_paragraphs: Vec::new(),
        token: None,
    };
    assert(state@.edits =~= seq![]);
    assert(state@.changed_paragraphs =~= seq![]);
    state
}

impl DocumentCore {
    /// Collects the rejections that come before any target is looked up.
    fn gate(&self, request: &ApprovedTemplateEditRequestV1, structure_digest: &String) -> (rejected:
        Vec<Rejection>)
        requires
            structure_digest@ == digest_of(*self),
        ensures
            views(rejected@) == gate_rejections(*self, *request),
    {
        let targets: &Vec<ApprovedEditTargetV1> = &request.targets;
        let mut rejected: Vec<Rejection> = Vec::new();
        let mut i: usize = 0;
        assert(views(rejected@) =~= form_rejections(targets@, 0));
        while i < targets.len()
            invariant
                i <= targets@.len(),
                views(rejected@) == form_rejections(targets@, i as nat),
            decreases targets@.len() - i,
        {
            check_form(&mut rejected, targets, i);
            i += 1;
        }
        let ghost formal = views(rejected@);
        if !is_one_kind(targets) {
            reject_all(&mut rejected, targets, RejectReason::MixedOrMultipleVirtualTargets);
        } else {
            assert(formal + seq![] =~= formal);
        }
        let ghost kind_checked = views(rejected@);
        if protection_status(self.page_count, complexity_stats(&self.document))
            == ProtectionStatus::Protected {
            reject_all(&mut rejected, targets, RejectReason::ProtectedDocument);
        } else {
            assert(kind_checked + seq![] =~= kind_checked);
        }
        let ghost protection_checked = views(rejected@);
        if !(request.expected_structure_digest == *structure_digest) {
            reject_all(&mut rejected, targets, RejectReason::StructureMismatch);
        } else {
            assert(protection_checked + seq![] =~= protection_checked);
        }
        rejected
    }

    /// Looks up a native field.
    fn resolve_field(&self, target: &ApprovedEditTargetV1, found: &mut Resolution)
        requires
            target is NativeField,
        ensures
            final(found)@ == old(found)@.then_also(resolution_of(*self, *target, None)),
    {
        if let ApprovedEditTargetV1::NativeField {
            target_id,
            field_id,
            expected_value_hash,
            value,
            ..
        } = target {
            let mut f: usize = 0;
            while f < self.fields.len() && self.fields[f].field.field_id != *field_id
                invariant
                    f <= self.fields@.len(),
                    field_from(self.fields@, *field_id, 0) == field_from(
                        self.fields@,
                        *field_id,
                        f as int,
                    ),
                decreases self.fields@.len() - f,
            {
                f += 1;
            }
            if f == self.fields.len() {
                found.refuse(target, RejectReason::UnknownField);
                return ;
            }
            let entry: &FieldEntry = &self.fields[f];
            if entry.field.ctrl_id == 0 || !entry.editable_in_form {
                found.refuse(target, RejectReason::UnsupportedField);
            } else if is_unexpected(&entry.value, expected_value_hash, value) {
                found.refuse(target, RejectReason::TargetTextMismatch);
            } else {
                found.accept(
                    ResolvedEdit::NativeField {
                        target_id: target_id.clone(),
                        field_id: *field_id,
                        old_value: entry.value.clone(),
                        value: value.clone(),
                    },
                    (entry.section_index, entry.para_index),
                );
            }
        }
    }

    /// Looks up a body paragraph.
    fn resolve_body(&self, target: &ApprovedEditTargetV1, found: &mut Resolution)
        requires
            target is BodyPlaceholder,
        ensures
            final(found)@ == old(found)@.then_also(resolution_of(*self, *target, None)),
    {
        if let ApprovedEditTargetV1::BodyPlaceholder {
            target_id,
            section_index,
            paragraph_index,
            expected_text_hash,
            adjacent_label_digest: expected_labels,
            value,
            ..
        } = target {
            if *section_index >= self.document.sections.len() {
                found.refuse(target, RejectReason::UnknownBodyParagraph);
                return ;
            }
            let paragraphs: &Vec<Paragraph> = &self.document.sections[*section_index].paragraphs;
            if *paragraph_index >= paragraphs.len() {
                found.refuse(target, RejectReason::UnknownBodyParagraph);
                return ;
            }
            let paragraph: &Paragraph = &paragraphs[*paragraph_index];
            if !body_paragraph_is_safe(paragraph) {
                found.refuse(target, RejectReason::MixedBodyContent);
            } else if is_unexpected(&paragraph.text, expected_text_hash, value) {
                found.refuse(target, RejectReason::TargetTextMismatch);
            } else if !(body_adjacent_label_digest(paragraphs, *paragraph_index)
                == *expected_labels) {
                found.refuse(target, RejectReason::AdjacentLabelMismatch);
            } else {
                found.accept(
                    ResolvedEdit::BodyPlaceholder {
                        target_id: target_id.clone(),
                        section_index: *section_index,
                        paragraph_index: *paragraph_index,
                        old_value: paragraph.text.clone(),
                        value: value.clone(),
                    },
                    (*section_index, *paragraph_index),
                );
            }
        }
    }

    /// Looks up a cell, whose value overflows it by `overflow`.
    fn resolve_cell(
        &self,
        target: &ApprovedEditTargetV1,
        overflow: Option<CellOverflow>,
        found: &mut Resolution,
    )
        requires
            target is TableCell,
        ensures
            final(found)@ == old(found)@.then_also(
                resolution_of(*self, *target, measured(overflow)),
            ),
    {
        if let ApprovedEditTargetV1::TableCell {
            target_id,
            table_index,
            row,
            col,
            expected_text_hash,
            adjacent_label_digest: expected_labels,
            merged_anchor,
            value,
            max_lines,
            keep_style,
            ..
        } = target {
            if !*keep_style || merged_anchor.row != *row || merged_anchor.col != *col {
                found.refuse(target, RejectReason::UnsafeCellOptions);
                return ;
            }
            let resolved: ResolvedTableCell = match locate_cell(
                &self.document,
                *table_index,
                *row,
                *col,
            ) {
                Ok(resolved) => resolved,
                Err(CellFault::Covered { .. }) => {
                    found.refuse(target, RejectReason::CoveredMergedCell);
                    return ;
                },
                Err(CellFault::OutOfGrid { .. }) => {
                    found.refuse(target, RejectReason::InvalidCellAddress);
                    return ;
                },
                Err(CellFault::Vacant) => {
                    found.refuse(target, RejectReason::InvalidCellAddress);
                    return ;
                },
                Err(CellFault::UnknownTable { .. }) => {
                    found.refuse(target, RejectReason::UnknownOrNestedTable);
                    return ;
                },
                Err(CellFault::NotATable) => {
                    found.refuse(target, RejectReason::UnknownOrNestedTable);
                    return ;
                },
            };
            let ghost place = place_of(self.document, *table_index, *row, *col)->Ok_0;
            let ghost there = table_at(
                self.document,
                place.grid.section as int,
                place.grid.paragraph as int,
                place.grid.control as int,
            )->0;
            proof {
                lemma_anchored(there.cells@, *row, *col, 0);
            }
            let table: &Table = match find_table(
                &self.document,
                resolved.section_index,
                resolved.paragraph_index,
                resolved.control_index,
            ) {
                Some(table) => table,
                None => {
                    found.refuse(target, RejectReason::StructureMismatch);
                    return ;
                },
            };
            if resolved.cell_index >= table.cells.len() {
                found.refuse(target, RejectReason::StructureMismatch);
                return ;
            }
            let blocked: bool = cell_blocked_reasons(&table.cells[resolved.cell_index]).len() > 0;
            if blocked {
                found.refuse(target, RejectReason::MixedCellContent);
            } else if is_unexpected(&resolved.old_text, expected_text_hash, value) {
                found.refuse(target, RejectReason::TargetTextMismatch);
            } else if !(adjacent_label_digest(table, *row, *col) == *expected_labels) {
                found.refuse(target, RejectReason::AdjacentLabelMismatch);
            } else {
                let paragraph: (usize, usize) = (resolved.section_index, resolved.paragraph_index);
                let edit: ResolvedEdit = ResolvedEdit::TableCell {
                    target_id: target_id.clone(),
                    old_value: resolved.old_text.clone(),
                    value: value.clone(),
                    resolved,
                };
                match overflow {
                    None => found.accept(edit, paragraph),
                    Some(measure) => {
                        let lines: usize = measure.lines;
                        if lines > *max_lines {
                            found.refuse(target, RejectReason::ConfirmedOverflow);
                        } else {
                            found.accept(edit, paragraph);
                            found.warn(target_id.clone());
                        }
                        found.overflowing(
                            OverflowTarget {
                                target_id: target_id.clone(),
                                overflow: measure,
                                max_lines: *max_lines,
                            },
                        );
                        proof {
                            let wanted = old(found)@.then_also(
                                resolution_of(*self, *target, measured(overflow)),
                            );
                            assert(found@.rejected =~= wanted.rejected);
                            assert(found@.warnings =~= wanted.warnings);
                            assert(found@.overflow_targets =~= wanted.overflow_targets);
                            assert(found@.edits =~= wanted.edits);
                            assert(found@.changed_paragraphs =~= wanted.changed_paragraphs);
                        }
                    },
                }
            }
        }
    }
}

/// What layout is asked about a request: the cell whose value is to be measured, and the
/// paragraphs whose pages are to be named.
#[derive(Debug)]
pub struct LayoutQuery {
    /// The cell that the value would be written to, with the value and the lines that it may
    /// take.
    pub cell: Option<(ResolvedTableCell, String, usize)>,
    pub paragraphs: Vec<(usize, usize)>,
}

/// Whether pages are still to be named once the value of the cell is measured to overflow it, if
/// it does: not where it takes more lines than it may, for then the request is rejected.
pub open spec fn pages_wanted(
    targets: Seq<ApprovedEditTargetV1>,
    overflow: Option<OverflowMeasure>,
) -> bool {
    targets[0] is TableCell ==> (overflow matches Some(measure) ==> measure.lines
        <= targets[0].line_limit())
}

impl LayoutQuery {
    /// Whether there are paragraphs whose pages are to be named, and the value of the cell, if there
    /// is one, takes no more lines than it may.
    pub open spec fn pages_due(&self, overflow: Option<OverflowMeasure>) -> bool {
        &&& self.paragraphs@.len() > 0
        &&& self.cell is Some && overflow is Some ==> overflow->0.lines <= (self.cell->0).2
    }

    /// Whether the query is what layout is asked about a request.
    pub open spec fn asks_about(
        &self,
        core: DocumentCore,
        request: ApprovedTemplateEditRequestV1,
    ) -> bool {
        match dry_run(core, request) {
            Some(resolution) => {
                &&& self.paragraphs@ == ascending(resolution.changed_paragraphs)
                &&& match measured_edit(resolution.edits) {
                    Some((cell, value)) => self.cell matches Some(asked) && asked.0@ == cell
                        && asked.1@ == value && asked.2 == request.targets@[0].line_limit(),
                    None => self.cell is None,
                }
            },
            None => self.cell is None && self.paragraphs@.len() == 0,
        }
    }

    /// Whether pages are still to be named once the value of the cell was measured.
    pub fn wants_pages(&self, overflow: &Option<CellOverflow>) -> (yes: bool)
        ensures
            yes == (self.paragraphs@.len() > 0 && (self.cell matches Some(asked) ==> (
            measured(*overflow) matches Some(measure) ==> measure.lines <= asked.2))),
            yes == self.pages_due(measured(*overflow)),
    {
        if self.paragraphs.len() == 0 {
            return false;
        }
        match (&self.cell, overflow) {
            (Some(asked), Some(measure)) => measure.lines <= asked.2,
            _ => true,
        }
    }
}

/// The cell edit among `edits`, which is the first one if there is any.
pub open spec fn measured_edit(edits: Seq<EditModel>) -> Option<(ResolvedCellModel, Seq<char>)> {
    if edits.len() > 0 {
        match edits[0] {
            EditModel::TableCell { resolved, value, .. } => Some((resolved, value)),
            _ => None,
        }
    } else {
        None
    }
}

/// What looking up the targets of a request yields where no value overflows its cell, if the
/// request comes so far.
pub open spec fn dry_run(core: DocumentCore, request: ApprovedTemplateEditRequestV1) -> Option<
    ResolutionModel,
> {
    let resolution = resolutions_of(core, request.targets@, None);
    if well_shaped(request) && gate_rejections(core, request).len() == 0
        && resolution.rejected.len() == 0 {
        Some(resolution)
    } else {
        None
    }
}

impl DocumentCore {
    /// Looks up the targets of a request.
    fn resolve_targets(
        &self,
        targets: &Vec<ApprovedEditTargetV1>,
        overflow: Option<CellOverflow>,
    ) -> (found: Resolution)
        requires
            one_kind(targets@),
        ensures
            found@ == resolutions_of(*self, targets@, measured(overflow)),
    {
        let ghost measure = measured(overflow);
        let mut pending: Option<CellOverflow> = overflow;
        let mut found: Resolution = Resolution::none();
        let mut i: usize = 0;
        while i < targets.len()
            invariant
                i <= targets@.len(),
                one_kind(targets@),
                i == 0 ==> measured(pending) == measure,
                found@ == resolutions_of(*self, targets@.take(i as int), measure),
            decreases targets@.len() - i,
        {
            let target: &ApprovedEditTargetV1 = &targets[i];
            assert(targets@.take(i + 1).drop_last() =~= targets@.take(i as int));
            match target {
                ApprovedEditTargetV1::NativeField { .. } => self.resolve_field(target, &mut found),
                ApprovedEditTargetV1::BodyPlaceholder { .. } => self.resolve_body(
                    target,
                    &mut found,
                ),
                ApprovedEditTargetV1::TableCell { .. } => {
                    assert(!(targets@[i as int] is NativeField));
                    let overflow_here: Option<CellOverflow> = pending.take();
                    self.resolve_cell(target, overflow_here, &mut found);
                },
            }
            i += 1;
        }
        assert(targets@.take(targets@.len() as int) =~= targets@);
        found
    }

    /// Checks a decoded request.
    fn check_request(&self, encoded: &EncodedRequest, layout: LayoutReport) -> (outcome: Result<
        PreflightState,
        HwpError,
    >)
        ensures
            match outcome_of(*self, *encoded, layout@) {
                Ok(model) => outcome matches Ok(state) && state@ == model,
                Err(text) => outcome matches Err(HwpError::RenderError(message)) && message@
                    == text,
            },
    {
        let request: &ApprovedTemplateEditRequestV1 = &encoded.request;
        if request.schema_version != 1 || !safe_target_id(request.template_id.as_str())
            || request.targets.len() == 0 || request.targets.len() > MAX_TARGETS {
            let none: Vec<Rejection> = Vec::new();
            assert(views(none@) =~= seq![]);
            return Ok(failed_state(failed_preflight_result(FailureReason::InvalidRequest, none)));
        }
        let structure_digest: String = approved_structure_digest(&self.document);
        let mut rejected: Vec<Rejection> = self.gate(request, &structure_digest);
        proof {
            assert(views(rejected@).len() == rejected@.len());
        }
        if rejected.len() > 0 {
            deduplicate_rejections(&mut rejected);
            return Ok(
                failed_state(failed_preflight_result(FailureReason::PreflightRejected, rejected)),
            );
        }
        proof {
            self.lemma_gate_open(*request);
        }
        let found: Resolution = self.resolve_targets(&request.targets, layout.overflow);
        let ghost resolution = found@;
        let mut refused: Vec<Rejection> = found.rejected;
        let mut warnings: Vec<Warning> = found.warnings;
        proof {
            assert(views(refused@).len() == refused@.len());
        }
        if refused.len() > 0 {
            deduplicate_rejections(&mut refused);
            let mut report: PreflightReport = failed_preflight_result(
                FailureReason::PreflightRejected,
                refused,
            );
            report.warnings = warnings;
            report.overflow_targets = found.overflow_targets;
            return Ok(failed_state(report));
        }
        let changed_paragraphs: Vec<(usize, usize)> = sort_pairs(&found.changed_paragraphs);
        if layout.changed_pages.len() > 0 {
            proof {
                lemma_views_push(
                    warnings@,
                    Warning { target_id: None, code: WarningCode::ChangedPagesConservative },
                );
            }
            warnings.push(
                Warning { target_id: None, code: WarningCode::ChangedPagesConservative },
            );
        }
        match &encoded.encoding {
            Err(error) => {
                let mut message: String = "preflight token 생성 실패: ".to_owned();
                message.append(error.as_str());
                Err(HwpError::RenderError(message))
            },
            Ok(bytes) => {
                let token: String = preflight_token(structure_digest.as_str(), bytes.as_slice());
                let state: PreflightState = PreflightState {
                    report: PreflightReport {
                        ok: true,
                        changed_pages: Some(layout.changed_pages),
                        preflight_token: Some(token.clone()),
                        targets: summarise(&found.edits),
                        warnings,
                        overflow_targets: found.overflow_targets,
                        rejected_targets: Vec::new(),
                        reason: None,
                    },
                    edits: found.edits,
                    changed_paragraphs,
                    token: Some(token),
                };
                assert(state@.report.rejected_targets =~= seq![]);
                Ok(state)
            },
        }
    }

    /// A request that no gate rejects is of one kind.
    pub proof fn lemma_gate_open(self, request: ApprovedTemplateEditRequestV1)
        requires
            gate_rejections(self, request).len() == 0,
            request.targets@.len() > 0,
        ensures
            one_kind(request.targets@),
    {
        if !one_kind(request.targets@) {
            assert(rejected_all(
                request.targets@,
                RejectReason::MixedOrMultipleVirtualTargets,
            ).len() > 0);
        }
    }

    /// Checks a request against the document: its form, the document's structure and
    /// protection, and the text of every target and of the labels around it.
    ///
    /// `decoded` is the request that `request_json` holds, or the error that came of decoding
    /// it; `layout` answers `layout_query`. The document is not changed.
    pub fn preflight_approved_template_edits(
        &mut self,
        request_json: &str,
        decoded: &Result<EncodedRequest, String>,
        layout: LayoutReport,
    ) -> (outcome: Result<PreflightState, HwpError>)
        requires
            old(self).document.well_formed(),
        ensures
            *final(self) == *old(self),
            match preflight_of(*old(self), request_json@, *decoded, layout@) {
                Ok(model) => outcome matches Ok(state) && state@ == model,
                Err(text) => outcome matches Err(HwpError::RenderError(message)) && message@
                    == text,
            },
    {
        if request_json.as_bytes().len() > MAX_REQUEST_BYTES {
            let none: Vec<Rejection> = Vec::new();
            assert(views(none@) =~= seq![]);
            return Ok(failed_state(failed_preflight_result(FailureReason::InvalidRequest, none)));
        }
        match decoded {
            Ok(encoded) => self.check_request(encoded, layout),
            Err(error) => {
                let mut message: String = "승인 편집 요청 JSON 오류: ".to_owned();
                message.append(error.as_str());
                Err(HwpError::RenderError(message))
            },
        }
    }

    /// Checks a request against the document and answers in JSON. The document is not changed.
    pub fn preflight_approved_template_edits_native(
        &mut self,
        request_json: &str,
        decoded: &Result<EncodedRequest, String>,
        layout: LayoutReport,
    ) -> (answer: Result<String, HwpError>)
        requires
            old(self).document.well_formed(),
        ensures
            *final(self) == *old(self),
            match preflight_of(*old(self), request_json@, *decoded, layout@) {
                Ok(model) => answer matches Ok(text) && text@ == json_text(
                    report_tree(model.report),
                ),
                Err(text) => answer matches Err(HwpError::RenderError(message)) && message@
                    == text,
            },
    {
        match self.preflight_approved_template_edits(request_json, decoded, layout) {
            Ok(state) => Ok(json_to_string(&report_json(state.report))),
            Err(error) => Err(error),
        }
    }

    /// Names what layout has to be asked before a request is checked: the cell whose value is to
    /// be measured, and the paragraphs that would change. Nothing is asked about a request that
    /// is rejected whatever layout says.
    pub fn layout_query(&self, request: &ApprovedTemplateEditRequestV1) -> (query: LayoutQuery)
        requires
            self.document.well_formed(),
        ensures
            match dry_run(*self, *request) {
                Some(resolution) => {
                    &&& query.paragraphs@ == ascending(resolution.changed_paragraphs)
                    &&& match measured_edit(resolution.edits) {
                        Some((cell, value)) => query.cell matches Some(asked) && asked.0@ == cell
                            && asked.1@ == value && asked.2 == request.targets@[0].line_limit(),
                        None => query.cell is None,
                    }
                },
                None => query.cell is None && query.paragraphs@.len() == 0,
            },
            query.asks_about(*self, *request),
    {
        let nothing: LayoutQuery = LayoutQuery { cell: None, paragraphs: Vec::new() };
        if request.schema_version != 1 || !safe_target_id(request.template_id.as_str())
            || request.targets.len() == 0 || request.targets.len() > MAX_TARGETS {
            return nothing;
        }
        let structure_digest: String = approved_structure_digest(&self.document);
        let rejected: Vec<Rejection> = self.gate(request, &structure_digest);
        proof {
            assert(views(rejected@).len() == rejected@.len());
        }
        if rejected.len() > 0 {
            return nothing;
        }
        proof {
            self.lemma_gate_open(*request);
        }
        let mut found: Resolution = self.resolve_targets(&request.targets, None);
        let ghost resolution = found@;
        proof {
            assert(views(found.rejected@).len() == found.rejected@.len());
            assert(views(found.edits@).len() == found.edits@.len());
        }
        if found.rejected.len() > 0 {
            return nothing;
        }
        let paragraphs: Vec<(usize, usize)> = sort_pairs(&found.changed_paragraphs);
        let mut cell: Option<(ResolvedTableCell, String, usize)> = None;
        if found.edits.len() > 0 {
            assert(views(found.edits@)[0] == found.edits@[0]@);
            let edit: ResolvedEdit = found.edits.swap_remove(0);
            if let ResolvedEdit::TableCell { resolved, value, .. } = edit {
                cell = Some((resolved, value, request.targets[0].max_lines()));
            }
        }
        LayoutQuery { cell, paragraphs }
    }
}

} // verus!
