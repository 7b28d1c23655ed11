//! Which targets are accepted once they are looked up, and what an accepted request reports.

use vstd::prelude::*;

use crate::digest::{digest_text, structure_bytes};
use crate::finding_laws::{bears, first_bearing, holds_object, law_blocked_cells, lemma_object};
use crate::label::token_bytes;
use crate::laws::{
    current_text, law_accepted_edits_match_targets, law_changed_paragraphs_ascend,
    law_rejections_are_distinct,
};
use crate::listing_laws::earlier;
use crate::model::{Cell, Control, DocumentCore, Paragraph, Table};
use crate::preflight::{
    ascending, before, field_from, one_kind, preflight_of, rejection, resolution_of, resolutions_of,
    LayoutModel, ResolutionModel,
};
use crate::repeat_laws::passes;
use crate::report::{
    distinct, FailureReason, OverflowMeasure, OverflowModel, RejectReason, RejectionModel,
    SummaryModel, WarningCode, WarningModel,
};
use crate::request::{ApprovedEditTargetV1, ApprovedTemplateEditRequestV1, EncodedRequest};
use crate::table::{blocked_reasons_of, cell_of, layout_control, place_of, plain_body, table_at};
use crate::verdict_laws::{
    at_fault, cell_found, first_field, form_of, law_faults_are_rejected, law_first_field_is_found,
    lemma_faultless, lemma_found, lemma_in_either, lemma_one_found, lemma_shaped, one_text,
    refused_for, refused_whole, shaped, some_anchored, table_found, text_only,
};

verus! {

/// A paragraph that holds nothing but text is plain.
proof fn lemma_text_only(paragraph: Paragraph)
    ensures
        plain_body(paragraph) <==> text_only(paragraph),
{
    lemma_object(paragraph.text@);
    assert forall|i: int| 0 <= i < paragraph.controls@.len() implies (layout_control(
        #[trigger] paragraph.controls@[i],
    ) <==> (paragraph.controls@[i] == Control::SectionDef || paragraph.controls@[i]
        == Control::ColumnDef)) by {}
}

/// Looking up a field rejects it for the reason for which it is to be refused.
proof fn lemma_field_refused(
    core: DocumentCore,
    target: ApprovedEditTargetV1,
    overflow: Option<OverflowMeasure>,
    reason: RejectReason,
)
    requires
        target is NativeField,
    ensures
        resolution_of(core, target, overflow).rejected.contains(rejection(target, reason))
            <==> refused_for(core, target, overflow, reason),
{
    if let ApprovedEditTargetV1::NativeField { field_id, expected_value_hash, value, .. } = target {
        let fields = core.fields@;
        let rejected = resolution_of(core, target, overflow).rejected;
        assert forall|f: int|
            #![trigger first_field(fields, field_id, f)]
            field_from(fields, field_id, 0) == Some(f) <==> first_field(
                fields,
                field_id,
                f,
            ) by {
            law_first_field_is_found(fields, field_id, f);
        }
        law_first_field_is_found(fields, field_id, 0);
        if let Some(f) = field_from(fields, field_id, 0) {
            assert(first_field(fields, field_id, f));
        }
        if rejected.len() > 0 {
            assert(rejected.contains(rejected[0]));
        }
    }
}

/// Looking up a paragraph of the body rejects it for the reason for which it is to be refused.
proof fn lemma_body_refused(
    core: DocumentCore,
    target: ApprovedEditTargetV1,
    overflow: Option<OverflowMeasure>,
    reason: RejectReason,
)
    requires
        target is BodyPlaceholder,
    ensures
        resolution_of(core, target, overflow).rejected.contains(rejection(target, reason))
            <==> refused_for(core, target, overflow, reason),
{
    if let ApprovedEditTargetV1::BodyPlaceholder { section_index, paragraph_index, .. } = target {
        let rejected = resolution_of(core, target, overflow).rejected;
        lemma_text_only(
            core.document.sections@[section_index as int].paragraphs@[paragraph_index as int],
        );
        if rejected.len() > 0 {
            assert(rejected.contains(rejected[0]));
        }
    }
}

/// Whether a cell holds one text is what keeps it from being blocked.
proof fn lemma_one_text(cell: Cell)
    ensures
        blocked_reasons_of(cell).len() == 0 <==> one_text(cell),
{
    law_blocked_cells(cell);
    if cell.paragraphs@.len() == 1 && holds_object(cell.paragraphs@[0]) {
        assert(exists|i: int|
            0 <= i < cell.paragraphs@.len() && holds_object(#[trigger] cell.paragraphs@[i]));
    }
}

/// Looking up a cell rejects it for the reason for which it is to be refused.
proof fn lemma_cell_refused(
    core: DocumentCore,
    target: ApprovedEditTargetV1,
    overflow: Option<OverflowMeasure>,
    reason: RejectReason,
)
    requires
        target is TableCell,
    ensures
        resolution_of(core, target, overflow).rejected.contains(rejection(target, reason))
            <==> refused_for(core, target, overflow, reason),
{
    if let ApprovedEditTargetV1::TableCell { table_index, row, col, .. } = target {
        let document = core.document;
        let rejected = resolution_of(core, target, overflow).rejected;
        if rejected.len() > 0 {
            assert(rejected.contains(rejected[0]));
        }
        lemma_found(document, table_index, row, col);
        assert forall|a: Table, b: Table|
            #![trigger table_found(document, table_index, a), table_found(document, table_index, b)]
            table_found(document, table_index, a) && table_found(document, table_index, b) implies a
            == b by {
            lemma_one_found(document, table_index, row, col, a, 0, b, 0);
        }
        match place_of(document, table_index, row, col) {
            Ok(place) => {
                let table = table_at(
                    document,
                    place.grid.section as int,
                    place.grid.paragraph as int,
                    place.grid.control as int,
                )->0;
                let i = place.cell;
                let cell = table.cells@[i];
                assert(cell_found(document, table_index, row, col, table, i));
                assert(table_found(document, table_index, table));
                assert(cell == cell_of(document, place));
                assert(some_anchored(table.cells@, row, col)) by {
                    assert(table.cells@[i].row == row);
                }
                lemma_one_text(cell);
                assert forall|a: Table, j: int| #[trigger]
                    cell_found(document, table_index, row, col, a, j) implies a == table && j
                    == i by {
                    lemma_one_found(document, table_index, row, col, a, j, table, i);
                }
            },
            Err(fault) => {
                assert forall|a: Table, j: int| !#[trigger]
                    cell_found(document, table_index, row, col, a, j) by {
                    if cell_found(document, table_index, row, col, a, j) {
                        assert(table_found(document, table_index, a));
                        assert(a.cells@[j].row == row);
                        assert(some_anchored(a.cells@, row, col));
                    }
                }
            },
        }
    }
}

/// Looking up a target rejects it for the reason for which it is to be refused.
pub proof fn lemma_refused(
    core: DocumentCore,
    target: ApprovedEditTargetV1,
    overflow: Option<OverflowMeasure>,
    reason: RejectReason,
)
    ensures
        resolution_of(core, target, overflow).rejected.contains(rejection(target, reason))
            <==> refused_for(core, target, overflow, reason),
{
    match target {
        ApprovedEditTargetV1::NativeField { .. } => {
            lemma_field_refused(core, target, overflow, reason);
        },
        ApprovedEditTargetV1::BodyPlaceholder { .. } => {
            lemma_body_refused(core, target, overflow, reason);
        },
        ApprovedEditTargetV1::TableCell { .. } => {
            lemma_cell_refused(core, target, overflow, reason);
        },
    }
}

/// What a run of targets rejects is what each of them does.
proof fn lemma_run_refused(
    core: DocumentCore,
    targets: Seq<ApprovedEditTargetV1>,
    overflow: Option<OverflowMeasure>,
    r: RejectionModel,
)
    ensures
        resolutions_of(core, targets, overflow).rejected.contains(r) <==> exists|i: int|
            0 <= i < targets.len() && form_of(#[trigger] targets[i]).id == r.target_id
                && refused_for(core, targets[i], overflow, r.reason),
    decreases targets.len(),
{
    if targets.len() > 0 {
        let fewer = targets.drop_last();
        let last = targets.last();
        let one = resolution_of(core, last, overflow).rejected;
        lemma_run_refused(core, fewer, overflow, r);
        lemma_in_either(resolutions_of(core, fewer, overflow).rejected, one, r);
        lemma_refused(core, last, overflow, r.reason);
        assert(last == targets[targets.len() - 1]);
        if one.len() > 0 {
            assert(one[0].target_id == form_of(last).id);
        }
        assert(one.contains(r) <==> form_of(last).id == r.target_id && refused_for(
            core,
            last,
            overflow,
            r.reason,
        )) by {
            if form_of(last).id == r.target_id {
                assert(rejection(last, r.reason) == r);
            }
        }
        if exists|i: int|
            0 <= i < fewer.len() && form_of(#[trigger] fewer[i]).id == r.target_id && refused_for(
                core,
                fewer[i],
                overflow,
                r.reason,
            ) {
            let i = choose|i: int|
                0 <= i < fewer.len() && form_of(#[trigger] fewer[i]).id == r.target_id
                    && refused_for(core, fewer[i], overflow, r.reason);
            assert(targets[i] == fewer[i]);
        }
        if exists|i: int|
            0 <= i < targets.len() && form_of(#[trigger] targets[i]).id == r.target_id
                && refused_for(core, targets[i], overflow, r.reason) {
            let i = choose|i: int|
                0 <= i < targets.len() && form_of(#[trigger] targets[i]).id == r.target_id
                    && refused_for(core, targets[i], overflow, r.reason);
            if i < fewer.len() {
                assert(targets[i] == fewer[i]);
            }
        }
    }
}

/// Whether no target of a request is at fault before anything is looked up.
pub open spec fn faultless(core: DocumentCore, request: ApprovedTemplateEditRequestV1) -> bool {
    forall|i: int, reason: RejectReason|
        0 <= i < request.targets@.len() ==> !#[trigger] at_fault(core, request, i, reason)
}

/// Whether no target of a request is to be refused once it is looked up.
pub open spec fn all_found(
    core: DocumentCore,
    request: ApprovedTemplateEditRequestV1,
    overflow: Option<OverflowMeasure>,
) -> bool {
    forall|i: int, reason: RejectReason|
        0 <= i < request.targets@.len() ==> !#[trigger] refused_for(
            core,
            request.targets@[i],
            overflow,
            reason,
        )
}

/// A faultless request is decided by what its targets find.
pub proof fn lemma_decided(
    core: DocumentCore,
    request: ApprovedTemplateEditRequestV1,
    overflow: Option<OverflowMeasure>,
)
    ensures
        resolutions_of(core, request.targets@, overflow).rejected.len() == 0 <==> all_found(
            core,
            request,
            overflow,
        ),
{
    let targets = request.targets@;
    let rejected = resolutions_of(core, targets, overflow).rejected;
    if rejected.len() > 0 {
        let r = rejected[0];
        assert(rejected.contains(r));
        lemma_run_refused(core, targets, overflow, r);
    } else {
        assert forall|i: int, reason: RejectReason|
            0 <= i < targets.len() implies !#[trigger] refused_for(
            core,
            targets[i],
            overflow,
            reason,
        ) by {
            let r = RejectionModel { target_id: form_of(targets[i]).id, reason };
            lemma_run_refused(core, targets, overflow, r);
        }
    }
}

/// A faultless request of which some target is to be refused once it is looked up is refused as a
/// whole: each target is rejected for the reason for which it is to be refused and for no other,
/// each rejection is reported once, and nothing is left to apply.
pub proof fn law_lookups_are_refused(
    core: DocumentCore,
    request_json: Seq<char>,
    encoded: EncodedRequest,
    layout: LayoutModel,
    i: int,
    reason: RejectReason,
)
    requires
        shaped(request_json, encoded.request),
        faultless(core, encoded.request),
        0 <= i < encoded.request.targets@.len(),
        refused_for(core, encoded.request.targets@[i], layout.overflow, reason),
    ensures
        preflight_of(core, request_json, Ok(encoded), layout) matches Ok(checked) && {
            let targets = encoded.request.targets@;
            &&& refused_whole(checked, FailureReason::PreflightRejected)
            &&& checked.report.rejected_targets.no_duplicates()
            &&& forall|r: RejectionModel| #[trigger]
                checked.report.rejected_targets.contains(r) <==> exists|k: int|
                    0 <= k < targets.len() && form_of(#[trigger] targets[k]).id == r.target_id
                        && refused_for(core, targets[k], layout.overflow, r.reason)
        },
{
    let request = encoded.request;
    let targets = request.targets@;
    lemma_shaped(request_json, request);
    lemma_faultless(core, request);
    lemma_decided(core, request, layout.overflow);
    let rejected = resolutions_of(core, targets, layout.overflow).rejected;
    law_rejections_are_distinct(rejected);
    let checked = preflight_of(core, request_json, Ok(encoded), layout)->Ok_0;
    assert forall|r: RejectionModel| #[trigger]
        checked.report.rejected_targets.contains(r) <==> exists|k: int|
            0 <= k < targets.len() && form_of(#[trigger] targets[k]).id == r.target_id
                && refused_for(core, targets[k], layout.overflow, r.reason) by {
        lemma_run_refused(core, targets, layout.overflow, r);
        assert(checked.report.rejected_targets == distinct(rejected));
    }
}

/// A request is accepted exactly where it has the shape of one, no target is at fault, none is to
/// be refused once it is looked up, and the request can be encoded for its token. Where all but the
/// last hold, the answer is an error that quotes the one of encoding it.
pub proof fn law_what_is_accepted(
    core: DocumentCore,
    request_json: Seq<char>,
    encoded: EncodedRequest,
    layout: LayoutModel,
)
    ensures
        passes(core, request_json, encoded, layout) <==> {
            &&& shaped(request_json, encoded.request)
            &&& faultless(core, encoded.request)
            &&& all_found(core, encoded.request, layout.overflow)
            &&& encoded.encoding is Ok
        },
        preflight_of(core, request_json, Ok(encoded), layout) is Err <==> {
            &&& shaped(request_json, encoded.request)
            &&& faultless(core, encoded.request)
            &&& all_found(core, encoded.request, layout.overflow)
            &&& encoded.encoding is Err
        },
        preflight_of(core, request_json, Ok(encoded), layout) matches Err(text) ==> text
            == "preflight token 생성 실패: "@ + encoded.encoding->Err_0@,
{
    let request = encoded.request;
    lemma_shaped(request_json, request);
    if shaped(request_json, request) {
        if faultless(core, request) {
            lemma_faultless(core, request);
            lemma_decided(core, request, layout.overflow);
        } else {
            let (i, reason) = choose|i: int, reason: RejectReason|
                0 <= i < request.targets@.len() && #[trigger] at_fault(core, request, i, reason);
            law_faults_are_rejected(core, request_json, encoded, layout, i, reason);
        }
    }
}

/// Whether a target stands in the paragraph that `pair` names: a field in the one that the first
/// field of its identifier is in, a paragraph of the body in itself, and a cell in the one that
/// holds the first table of its number.
pub open spec fn stands_in(
    core: DocumentCore,
    target: ApprovedEditTargetV1,
    pair: (usize, usize),
) -> bool {
    match target {
        ApprovedEditTargetV1::NativeField { field_id, .. } => exists|f: int| #[trigger]
            first_field(core.fields@, field_id, f) && pair.0 == core.fields@[f].section_index
                && pair.1 == core.fields@[f].para_index,
        ApprovedEditTargetV1::BodyPlaceholder { section_index, paragraph_index, .. } => pair.0
            == section_index && pair.1 == paragraph_index,
        ApprovedEditTargetV1::TableCell { table_index, .. } => exists|g: int| #[trigger]
            first_bearing(core.document.tables@, table_index, g) && pair.0
                == core.document.tables@[g].section && pair.1 == core.document.tables@[g].paragraph,
    }
}

/// An accepted target changes the paragraph that it stands in.
proof fn lemma_stands_in(
    core: DocumentCore,
    target: ApprovedEditTargetV1,
    overflow: Option<OverflowMeasure>,
    pair: (usize, usize),
)
    requires
        resolution_of(core, target, overflow).rejected.len() == 0,
    ensures
        resolution_of(core, target, overflow).changed_paragraphs.contains(pair) <==> stands_in(
            core,
            target,
            pair,
        ),
{
    let changed = resolution_of(core, target, overflow).changed_paragraphs;
    assert(changed.len() == 1);
    assert(changed.contains(changed[0]));
    match target {
        ApprovedEditTargetV1::NativeField { field_id, .. } => {
            let fields = core.fields@;
            let found = field_from(fields, field_id, 0)->0;
            law_first_field_is_found(fields, field_id, found);
            assert forall|f: int| #[trigger] first_field(fields, field_id, f) implies f == found by {
                law_first_field_is_found(fields, field_id, f);
            }
        },
        ApprovedEditTargetV1::BodyPlaceholder { .. } => {},
        ApprovedEditTargetV1::TableCell { table_index, row, col, .. } => {
            let tables = core.document.tables@;
            lemma_found(core.document, table_index, row, col);
            let place = place_of(core.document, table_index, row, col)->Ok_0;
            let found = choose|g: int| #[trigger]
                first_bearing(tables, table_index, g) && place.grid == tables[g];
            assert forall|g: int| #[trigger] first_bearing(tables, table_index, g) implies g
                == found by {
                if g < found {
                    assert(!bears(tables[g], table_index));
                }
                if found < g {
                    assert(!bears(tables[found], table_index));
                }
            }
        },
    }
}

/// The paragraphs that accepted targets change are those that they stand in.
pub proof fn lemma_all_stand_in(
    core: DocumentCore,
    targets: Seq<ApprovedEditTargetV1>,
    overflow: Option<OverflowMeasure>,
    pair: (usize, usize),
)
    requires
        resolutions_of(core, targets, overflow).rejected.len() == 0,
    ensures
        resolutions_of(core, targets, overflow).changed_paragraphs.contains(pair) <==> exists|
            i: int,
        |
            0 <= i < targets.len() && stands_in(core, #[trigger] targets[i], pair),
    decreases targets.len(),
{
    if targets.len() > 0 {
        let fewer = targets.drop_last();
        let last = targets.last();
        let before = resolutions_of(core, fewer, overflow);
        let one = resolution_of(core, last, overflow);
        assert(resolutions_of(core, targets, overflow).rejected.len() == before.rejected.len()
            + one.rejected.len());
        lemma_all_stand_in(core, fewer, overflow, pair);
        lemma_stands_in(core, last, overflow, pair);
        lemma_in_either(before.changed_paragraphs, one.changed_paragraphs, pair);
        assert(last == targets[targets.len() - 1]);
        if exists|i: int| 0 <= i < fewer.len() && stands_in(core, #[trigger] fewer[i], pair) {
            let i = choose|i: int|
                0 <= i < fewer.len() && stands_in(core, #[trigger] fewer[i], pair);
            assert(targets[i] == fewer[i]);
        }
        if exists|i: int| 0 <= i < targets.len() && stands_in(core, #[trigger] targets[i], pair) {
            let i = choose|i: int|
                0 <= i < targets.len() && stands_in(core, #[trigger] targets[i], pair);
            if i < fewer.len() {
                assert(targets[i] == fewer[i]);
            }
        }
    }
}

/// The paragraphs that an accepted request changes are those that its targets stand in, each once
/// and in the order of the document.
pub proof fn law_changed_paragraphs_are_the_targets(
    core: DocumentCore,
    request_json: Seq<char>,
    encoded: EncodedRequest,
    layout: LayoutModel,
)
    requires
        passes(core, request_json, encoded, layout),
    ensures
        ({
            let targets = encoded.request.targets@;
            let pairs = preflight_of(
                core,
                request_json,
                Ok(encoded),
                layout,
            )->Ok_0.changed_paragraphs;
            &&& forall|pair: (usize, usize)| #[trigger]
                pairs.contains(pair) <==> exists|i: int|
                    0 <= i < targets.len() && stands_in(core, #[trigger] targets[i], pair)
            &&& forall|k: int, l: int|
                0 <= k < l < pairs.len() ==> earlier(
                    (#[trigger] pairs[k]).0 as int,
                    pairs[k].1 as int,
                    (#[trigger] pairs[l]).0 as int,
                    pairs[l].1 as int,
                )
        }),
{
    let targets = encoded.request.targets@;
    let all = resolutions_of(core, targets, layout.overflow).changed_paragraphs;
    let pairs = ascending(all);
    law_changed_paragraphs_ascend(all);
    assert forall|pair: (usize, usize)| #[trigger] pairs.contains(pair) <==> exists|i: int|
        0 <= i < targets.len() && stands_in(core, #[trigger] targets[i], pair) by {
        lemma_all_stand_in(core, targets, layout.overflow, pair);
        assert(ascending(all).contains(pair) <==> all.contains(pair));
    }
    assert forall|k: int, l: int| 0 <= k < l < pairs.len() implies earlier(
        (#[trigger] pairs[k]).0 as int,
        pairs[k].1 as int,
        (#[trigger] pairs[l]).0 as int,
        pairs[l].1 as int,
    ) by {
        assert(before(pairs[k], pairs[l]));
    }
}

/// What looking up accepted targets warns of: nothing, but for a cell whose value overflows it.
proof fn lemma_warnings(
    core: DocumentCore,
    targets: Seq<ApprovedEditTargetV1>,
    overflow: Option<OverflowMeasure>,
)
    requires
        resolutions_of(core, targets, overflow).rejected.len() == 0,
    ensures
        ({
            let found = resolutions_of(core, targets, overflow);
            &&& (forall|i: int| 0 <= i < targets.len() ==> !((#[trigger] targets[i]) is TableCell))
                || overflow is None ==> found.warnings.len() == 0 && found.overflow_targets.len()
                == 0
            &&& targets.len() == 1 && targets[0] is TableCell && overflow is Some ==> {
                &&& found.warnings == seq![
                    WarningModel {
                        target_id: Some(form_of(targets[0]).id),
                        code: WarningCode::CellWrapExpected,
                    },
                ]
                &&& found.overflow_targets == seq![
                    OverflowModel {
                        target_id: form_of(targets[0]).id,
                        overflow: overflow->0,
                        max_lines: form_of(targets[0]).max_lines,
                    },
                ]
            }
        }),
    decreases targets.len(),
{
    if targets.len() > 0 {
        let fewer = targets.drop_last();
        let last = targets.last();
        let before = resolutions_of(core, fewer, overflow);
        let one = resolution_of(core, last, overflow);
        let found = resolutions_of(core, targets, overflow);
        assert(found.rejected.len() == before.rejected.len() + one.rejected.len());
        lemma_warnings(core, fewer, overflow);
        assert(last == targets[targets.len() - 1]);
        if forall|i: int| 0 <= i < targets.len() ==> !((#[trigger] targets[i]) is TableCell) {
            assert forall|i: int| 0 <= i < fewer.len() implies !((
            #[trigger] fewer[i]) is TableCell) by {
                assert(fewer[i] == targets[i]);
            }
        }
        if targets.len() == 1 {
            assert(fewer =~= Seq::<ApprovedEditTargetV1>::empty());
            assert(found.warnings =~= one.warnings);
            assert(found.overflow_targets =~= one.overflow_targets);
        }
    }
}

/// What an accepted request reports: each target with the text that its place holds, its value, and
/// whether that changes anything; the pages that layout gave; the token of this document and this
/// request; a warning and a measure where the value of a cell overflows it; and a warning where
/// there are pages at all.
pub proof fn law_accepted_report(
    core: DocumentCore,
    request_json: Seq<char>,
    encoded: EncodedRequest,
    layout: LayoutModel,
)
    requires
        passes(core, request_json, encoded, layout),
    ensures
        ({
            let targets = encoded.request.targets@;
            let checked = preflight_of(core, request_json, Ok(encoded), layout)->Ok_0;
            let report = checked.report;
            let wraps = targets[0] is TableCell && layout.overflow is Some;
            let wrap = WarningModel {
                target_id: Some(form_of(targets[0]).id),
                code: WarningCode::CellWrapExpected,
            };
            let paged = WarningModel {
                target_id: None,
                code: WarningCode::ChangedPagesConservative,
            };
            let some_pages = layout.changed_pages.len() > 0;
            &&& report.reason is None
            &&& report.rejected_targets.len() == 0
            &&& report.changed_pages == Some(layout.changed_pages)
            &&& encoded.encoding is Ok
            &&& checked.token == Some(
                digest_text(
                    token_bytes(
                        digest_text(structure_bytes(core.document)),
                        encoded.encoding->Ok_0@,
                    ),
                ),
            )
            &&& report.preflight_token == checked.token
            &&& report.targets.len() == targets.len()
            &&& forall|i: int|
                0 <= i < targets.len() ==> (#[trigger] report.targets[i]) == (SummaryModel {
                    target_id: form_of(targets[i]).id,
                    original_value: current_text(core, targets[i]),
                    proposed_value: form_of(targets[i]).value,
                    changed: current_text(core, targets[i]) != form_of(targets[i]).value,
                })
            &&& wraps && some_pages ==> report.warnings == seq![wrap, paged]
            &&& wraps && !some_pages ==> report.warnings == seq![wrap]
            &&& !wraps && some_pages ==> report.warnings == seq![paged]
            &&& !wraps && !some_pages ==> report.warnings.len() == 0
            &&& wraps ==> report.overflow_targets == seq![
                OverflowModel {
                    target_id: form_of(targets[0]).id,
                    overflow: layout.overflow->0,
                    max_lines: form_of(targets[0]).max_lines,
                },
            ]
            &&& !wraps ==> report.overflow_targets.len() == 0
        }),
{
    let targets = encoded.request.targets@;
    let checked = preflight_of(core, request_json, Ok(encoded), layout)->Ok_0;
    let report = checked.report;
    law_accepted_edits_match_targets(core, request_json, encoded, layout);
    core.lemma_gate_open(encoded.request);
    lemma_warnings(core, targets, layout.overflow);
    if !(targets[0] is TableCell) {
        assert forall|i: int| 0 <= i < targets.len() implies !((
        #[trigger] targets[i]) is TableCell) by {}
    }
    let wraps = targets[0] is TableCell && layout.overflow is Some;
    if wraps {
        assert(targets.len() == 1);
        if layout.changed_pages.len() > 0 {
            assert(report.warnings =~= seq![report.warnings[0], report.warnings[1]]);
        }
    } else if layout.changed_pages.len() > 0 {
        assert(report.warnings =~= seq![report.warnings[0]]);
    }
}

/// What looking up fields warns of: nothing.
proof fn lemma_fields_warn_of_nothing(
    core: DocumentCore,
    targets: Seq<ApprovedEditTargetV1>,
    overflow: Option<OverflowMeasure>,
)
    requires
        forall|i: int| 0 <= i < targets.len() ==> (#[trigger] targets[i]) is NativeField,
    ensures
        resolutions_of(core, targets, overflow).warnings.len() == 0,
        resolutions_of(core, targets, overflow).overflow_targets.len() == 0,
    decreases targets.len(),
{
    if targets.len() > 0 {
        let fewer = targets.drop_last();
        assert forall|i: int| 0 <= i < fewer.len() implies (#[trigger] fewer[i]) is NativeField by {
            assert(fewer[i] == targets[i]);
        }
        lemma_fields_warn_of_nothing(core, fewer, overflow);
        assert(targets.last() == targets[targets.len() - 1]);
    }
}

/// What looking up one target that is rejected warns of: nothing, and an overflow is told of
/// exactly where it is what the target is rejected for.
proof fn lemma_one_warns_of_nothing(
    core: DocumentCore,
    target: ApprovedEditTargetV1,
    overflow: Option<OverflowMeasure>,
)
    requires
        resolution_of(core, target, overflow).rejected.len() > 0,
    ensures
        ({
            let one = resolution_of(core, target, overflow);
            let due = one.rejected.contains(rejection(target, RejectReason::ConfirmedOverflow));
            &&& one.warnings.len() == 0
            &&& !due ==> one.overflow_targets.len() == 0
            &&& due ==> overflow is Some && one.overflow_targets == seq![
                OverflowModel {
                    target_id: form_of(target).id,
                    overflow: overflow->0,
                    max_lines: form_of(target).max_lines,
                },
            ]
        }),
{
    let one = resolution_of(core, target, overflow);
    assert(one.rejected.contains(one.rejected[0]));
}

/// What looking up one target yields is what looking up the run of it does.
proof fn lemma_run_of_one(
    core: DocumentCore,
    targets: Seq<ApprovedEditTargetV1>,
    overflow: Option<OverflowMeasure>,
)
    requires
        targets.len() == 1,
    ensures
        resolutions_of(core, targets, overflow).rejected == resolution_of(
            core,
            targets[0],
            overflow,
        ).rejected,
        resolutions_of(core, targets, overflow).warnings == resolution_of(
            core,
            targets[0],
            overflow,
        ).warnings,
        resolutions_of(core, targets, overflow).overflow_targets == resolution_of(
            core,
            targets[0],
            overflow,
        ).overflow_targets,
{
    let one = resolution_of(core, targets[0], overflow);
    let found = resolutions_of(core, targets, overflow);
    assert(resolutions_of(core, targets.drop_last(), overflow) == ResolutionModel::none());
    assert(found.rejected =~= one.rejected);
    assert(found.warnings =~= one.warnings);
    assert(found.overflow_targets =~= one.overflow_targets);
}

/// A field is not refused for an overflow.
proof fn lemma_fields_do_not_overflow(
    core: DocumentCore,
    target: ApprovedEditTargetV1,
    overflow: Option<OverflowMeasure>,
)
    requires
        target is NativeField,
    ensures
        !refused_for(core, target, overflow, RejectReason::ConfirmedOverflow),
{
}

/// What a refused request warns of and tells of an overflow is what looking up its targets does.
proof fn lemma_refused_outcome(
    core: DocumentCore,
    request_json: Seq<char>,
    encoded: EncodedRequest,
    layout: LayoutModel,
)
    requires
        shaped(request_json, encoded.request),
        faultless(core, encoded.request),
        !all_found(core, encoded.request, layout.overflow),
    ensures
        preflight_of(core, request_json, Ok(encoded), layout) matches Ok(checked) && {
            let found = resolutions_of(core, encoded.request.targets@, layout.overflow);
            &&& found.rejected.len() > 0
            &&& checked.report.warnings == found.warnings
            &&& checked.report.overflow_targets == found.overflow_targets
        },
        one_kind(encoded.request.targets@),
{
    lemma_shaped(request_json, encoded.request);
    lemma_faultless(core, encoded.request);
    lemma_decided(core, encoded.request, layout.overflow);
    core.lemma_gate_open(encoded.request);
}

/// A request that is refused once its targets are looked up warns of nothing, and tells of an
/// overflow exactly where that is what a cell is refused for: how far the value overflows the cell,
/// and how many lines it may take.
pub proof fn law_refused_overflow_is_measured(
    core: DocumentCore,
    request_json: Seq<char>,
    encoded: EncodedRequest,
    layout: LayoutModel,
    i: int,
    reason: RejectReason,
)
    requires
        shaped(request_json, encoded.request),
        faultless(core, encoded.request),
        0 <= i < encoded.request.targets@.len(),
        refused_for(core, encoded.request.targets@[i], layout.overflow, reason),
    ensures
        preflight_of(core, request_json, Ok(encoded), layout) matches Ok(checked) && {
            let first = encoded.request.targets@[0];
            let overflows = refused_for(
                core,
                first,
                layout.overflow,
                RejectReason::ConfirmedOverflow,
            );
            &&& checked.report.warnings.len() == 0
            &&& !overflows ==> checked.report.overflow_targets.len() == 0
            &&& overflows ==> layout.overflow is Some && checked.report.overflow_targets == seq![
                OverflowModel {
                    target_id: form_of(first).id,
                    overflow: layout.overflow->0,
                    max_lines: form_of(first).max_lines,
                },
            ]
        },
{
    let request = encoded.request;
    let targets = request.targets@;
    let overflow = layout.overflow;
    assert(!all_found(core, request, overflow));
    lemma_refused_outcome(core, request_json, encoded, layout);
    if targets.len() == 1 {
        lemma_run_of_one(core, targets, overflow);
        lemma_one_warns_of_nothing(core, targets[0], overflow);
        lemma_refused(core, targets[0], overflow, RejectReason::ConfirmedOverflow);
    } else {
        lemma_fields_warn_of_nothing(core, targets, overflow);
        lemma_fields_do_not_overflow(core, targets[0], overflow);
    }
}

} // verus!
