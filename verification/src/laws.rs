//! What holds of template editing as a whole.

use vstd::prelude::*;
use vstd::utf8::encode_utf8;

use crate::apply::{plan_of, stale_answer, starts_with, ApplyStart};
use crate::digest::{digest_text, sha256, tag};
use crate::encoding_laws::{law_equal_digests_are_of_equal_hashes, lemma_parts};
use crate::inspect::{
    body_candidates_of, body_model, cell_model, grid_cells, inspection_of, is_candidate,
    native_fields_of, section_candidates, table_cells_of, BodyModel, CellModel, FieldModel,
};
use crate::label::{text_hash_of, token_bytes};
use crate::model::{Cell, Document, DocumentCore, FieldEntry, Paragraph, Section, TableGrid};
use crate::preflight::{
    ascending, before, digest_of, dry_run, field_from, form_rejections, gate_rejections, inserted,
    measured_edit, one_kind, pages_wanted, preflight_of, protected, rejected_all, rejection,
    resolution_of, resolutions_of, summary_of, well_shaped, LayoutModel, PreflightModel,
    MAX_REQUEST_BYTES,
};
use crate::report::{
    distinct, lemma_distinct_contains, OverflowMeasure, RejectReason, RejectionModel, SummaryModel,
};
use crate::request::{ApprovedEditTargetV1, ApprovedTemplateEditRequestV1, EncodedRequest};
use crate::table::{
    anchored_from, cell_of, cell_text_of, covering_from, covers, lemma_anchored, numbered_from,
    place_of, table_at,
};

verus! {

/// Rejections are reported once each, none is lost, and none is added.
pub proof fn law_rejections_are_distinct(rejected: Seq<RejectionModel>)
    ensures
        distinct(rejected).no_duplicates(),
        forall|r: RejectionModel| #[trigger]
            distinct(rejected).contains(r) <==> rejected.contains(r),
    decreases rejected.len(),
{
    if rejected.len() > 0 {
        let init = rejected.drop_last();
        law_rejections_are_distinct(init);
        lemma_distinct_contains(init, rejected.last());
    }
    assert forall|r: RejectionModel| #[trigger]
        distinct(rejected).contains(r) <==> rejected.contains(r) by {
        lemma_distinct_contains(rejected, r);
    }
}

/// Whether each pair comes before the next.
pub open spec fn ascends(pairs: Seq<(usize, usize)>) -> bool {
    forall|i: int, j: int|
        0 <= i < j < pairs.len() ==> before(#[trigger] pairs[i], #[trigger] pairs[j])
}

/// Putting a pair in its place keeps the order and adds nothing but the pair.
proof fn lemma_inserted(pairs: Seq<(usize, usize)>, pair: (usize, usize))
    requires
        ascends(pairs),
    ensures
        ascends(inserted(pairs, pair)),
        forall|p: (usize, usize)| #[trigger]
            inserted(pairs, pair).contains(p) <==> pairs.contains(p) || p == pair,
    decreases pairs.len(),
{
    let out = inserted(pairs, pair);
    if pairs.len() == 0 || before(pairs.last(), pair) {
        assert(out =~= pairs.push(pair));
        assert forall|p: (usize, usize)| #[trigger] out.contains(p) <==> pairs.contains(p) || p
            == pair by {
            if pairs.contains(p) {
                let k = choose|k: int| 0 <= k < pairs.len() && pairs[k] == p;
                assert(out[k] == p);
            }
            assert(out[pairs.len() as int] == pair);
            if out.contains(p) && p != pair {
                let k = choose|k: int| 0 <= k < out.len() && out[k] == p;
                assert(pairs[k] == p);
            }
        }
        assert forall|i: int, j: int| 0 <= i < j < out.len() implies before(
            #[trigger] out[i],
            #[trigger] out[j],
        ) by {
            if j == pairs.len() && i < pairs.len() - 1 {
                assert(before(pairs[i], pairs[pairs.len() - 1]));
            }
        }
    } else if pairs.last() == pair {
        assert(pairs[pairs.len() - 1] == pair);
    } else {
        let init = pairs.drop_last();
        let last = pairs.last();
        assert(ascends(init)) by {
            assert forall|i: int, j: int| 0 <= i < j < init.len() implies before(
                #[trigger] init[i],
                #[trigger] init[j],
            ) by {
                assert(before(pairs[i], pairs[j]));
            }
        }
        lemma_inserted(init, pair);
        let rest = inserted(init, pair);
        assert(out == rest.push(last));
        assert forall|p: (usize, usize)| #[trigger] out.contains(p) <==> pairs.contains(p) || p
            == pair by {
            assert(rest.contains(p) <==> init.contains(p) || p == pair);
            if rest.contains(p) {
                let k = choose|k: int| 0 <= k < rest.len() && rest[k] == p;
                assert(out[k] == p);
            }
            if init.contains(p) {
                let k = choose|k: int| 0 <= k < init.len() && init[k] == p;
                assert(pairs[k] == p);
            }
            assert(out[rest.len() as int] == last);
            assert(pairs[pairs.len() - 1] == last);
            if out.contains(p) && p != last {
                let k = choose|k: int| 0 <= k < out.len() && out[k] == p;
                assert(rest[k] == p);
            }
            if pairs.contains(p) && p != last {
                let k = choose|k: int| 0 <= k < pairs.len() && pairs[k] == p;
                assert(init[k] == p);
            }
        }
        assert forall|i: int, j: int| 0 <= i < j < out.len() implies before(
            #[trigger] out[i],
            #[trigger] out[j],
        ) by {
            if j == rest.len() {
                assert(rest.contains(rest[i]));
                if init.contains(rest[i]) {
                    let k = choose|k: int| 0 <= k < init.len() && init[k] == rest[i];
                    assert(before(pairs[k], pairs[pairs.len() - 1]));
                }
            }
        }
    }
}

/// The changed paragraphs are reported in the order of the document, each once, and no other
/// paragraph is.
pub proof fn law_changed_paragraphs_ascend(pairs: Seq<(usize, usize)>)
    ensures
        ascends(ascending(pairs)),
        forall|p: (usize, usize)| #[trigger] ascending(pairs).contains(p) <==> pairs.contains(p),
    decreases pairs.len(),
{
    if pairs.len() > 0 {
        let init = pairs.drop_last();
        law_changed_paragraphs_ascend(init);
        lemma_inserted(ascending(init), pairs.last());
        assert forall|p: (usize, usize)| #[trigger]
            ascending(pairs).contains(p) <==> pairs.contains(p) by {
            assert(pairs =~= init.push(pairs.last()));
            assert(ascending(init).contains(p) <==> init.contains(p));
            if init.contains(p) {
                let k = choose|k: int| 0 <= k < init.len() && init[k] == p;
                assert(pairs[k] == p);
            }
            assert(pairs[pairs.len() - 1] == pairs.last());
            if pairs.contains(p) && p != pairs.last() {
                let k = choose|k: int| 0 <= k < pairs.len() && pairs[k] == p;
                assert(init[k] == p);
            }
        }
    }
}

/// Where a coordinate is refused because a merged cell covers it, the anchor that the refusal
/// names can be resolved, and lies neither below the coordinate nor to its right.
pub proof fn law_named_anchor_resolves(document: Document, table_no: usize, row: u16, col: u16)
    requires
        place_of(document, table_no, row, col) is Err,
        place_of(document, table_no, row, col)->Err_0 is Covered,
    ensures
        ({
            let fault = place_of(document, table_no, row, col)->Err_0;
            let anchor = (fault->Covered_row, fault->Covered_col);
            &&& place_of(document, table_no, anchor.0, anchor.1) is Ok
            &&& anchor.0 <= row
            &&& anchor.1 <= col
        }),
{
    let g = numbered_from(document.tables@, table_no, 0)->0;
    let grid = document.tables@[g];
    let table = table_at(
        document,
        grid.section as int,
        grid.paragraph as int,
        grid.control as int,
    )->0;
    lemma_covering(table.cells@, row, col, 0);
    let i = covering_from(table.cells@, row, col, 0)->0;
    lemma_anchored(table.cells@, table.cells@[i].row, table.cells@[i].col, 0);
}

/// The cell that is found covers the coordinate.
proof fn lemma_covering(cells: Seq<Cell>, row: u16, col: u16, from: int)
    requires
        0 <= from,
    ensures
        covering_from(cells, row, col, from) matches Some(i) ==> from <= i < cells.len() && covers(
            cells[i],
            row,
            col,
        ),
    decreases cells.len() - from,
{
    if from < cells.len() && !covers(cells[from], row, col) {
        lemma_covering(cells, row, col, from + 1);
    }
}

/// A resolved cell is anchored at the coordinate that was asked for, inside the grid of its table.
pub proof fn law_resolved_cell_is_anchored(document: Document, table_no: usize, row: u16, col: u16)
    requires
        place_of(document, table_no, row, col) is Ok,
    ensures
        ({
            let place = place_of(document, table_no, row, col)->Ok_0;
            let table = table_at(
                document,
                place.grid.section as int,
                place.grid.paragraph as int,
                place.grid.control as int,
            );
            &&& table is Some
            &&& row < table->0.row_count
            &&& col < table->0.col_count
            &&& 0 <= place.cell < table->0.cells@.len()
            &&& cell_of(document, place).row == row
            &&& cell_of(document, place).col == col
        }),
{
    let place = place_of(document, table_no, row, col)->Ok_0;
    let table = table_at(
        document,
        place.grid.section as int,
        place.grid.paragraph as int,
        place.grid.control as int,
    )->0;
    lemma_anchored(table.cells@, row, col, 0);
}

/// Rejecting every target rejects each.
proof fn lemma_rejected_all_contains(
    targets: Seq<ApprovedEditTargetV1>,
    reason: RejectReason,
    i: int,
)
    requires
        0 <= i < targets.len(),
    ensures
        rejected_all(targets, reason).contains(rejection(targets[i], reason)),
{
    assert(rejected_all(targets, reason)[i] == rejection(targets[i], reason));
}

/// What a part of a sequence contains, the whole contains.
proof fn lemma_contains_part<T>(a: Seq<T>, b: Seq<T>, c: Seq<T>, x: T)
    requires
        b.contains(x),
    ensures
        (a + b + c).contains(x),
{
    let k = choose|k: int| 0 <= k < b.len() && b[k] == x;
    assert((a + b + c)[a.len() + k] == x);
}

/// A request that is not too long, is decoded, and is well shaped reaches the gates.
pub open spec fn reaches_gates(request_json: Seq<char>, encoded: EncodedRequest) -> bool {
    &&& encode_utf8(request_json).len() <= MAX_REQUEST_BYTES
    &&& well_shaped(encoded.request)
}

/// A protected document is edited by no request: every target of every well-shaped request is
/// rejected for the protection of the document, and nothing is left to apply.
pub proof fn law_protected_document_is_refused(
    core: DocumentCore,
    request_json: Seq<char>,
    encoded: EncodedRequest,
    layout: LayoutModel,
)
    requires
        protected(core),
        reaches_gates(request_json, encoded),
    ensures
        preflight_of(core, request_json, Ok(encoded), layout) matches Ok(checked) && {
            &&& !checked.report.ok
            &&& checked.edits.len() == 0
            &&& checked.token is None
            &&& forall|i: int|
                0 <= i < encoded.request.targets@.len()
                    ==> checked.report.rejected_targets.contains(
                    rejection(
                        #[trigger] encoded.request.targets@[i],
                        RejectReason::ProtectedDocument,
                    ),
                )
        },
{
    let targets = encoded.request.targets@;
    let gate = gate_rejections(core, encoded.request);
    law_rejections_are_distinct(gate);
    assert forall|i: int| 0 <= i < targets.len() implies gate.contains(
        rejection(#[trigger] targets[i], RejectReason::ProtectedDocument),
    ) by {
        lemma_rejected_all_contains(targets, RejectReason::ProtectedDocument, i);
        let head = form_rejections(targets, targets.len()) + (if one_kind(targets) {
            Seq::<RejectionModel>::empty()
        } else {
            rejected_all(targets, RejectReason::MixedOrMultipleVirtualTargets)
        });
        let tail = if encoded.request.expected_structure_digest@ == digest_of(core) {
            Seq::<RejectionModel>::empty()
        } else {
            rejected_all(targets, RejectReason::StructureMismatch)
        };
        lemma_contains_part(
            head,
            rejected_all(targets, RejectReason::ProtectedDocument),
            tail,
            rejection(targets[i], RejectReason::ProtectedDocument),
        );
    }
    assert(gate.contains(rejection(targets[0], RejectReason::ProtectedDocument)));
    assert(gate.len() > 0);
}

/// A request made for another structure edits nothing: every target is rejected for it.
pub proof fn law_other_structure_is_refused(
    core: DocumentCore,
    request_json: Seq<char>,
    encoded: EncodedRequest,
    layout: LayoutModel,
)
    requires
        encoded.request.expected_structure_digest@ != digest_of(core),
        reaches_gates(request_json, encoded),
    ensures
        preflight_of(core, request_json, Ok(encoded), layout) matches Ok(checked) && {
            &&& !checked.report.ok
            &&& checked.edits.len() == 0
            &&& checked.token is None
            &&& forall|i: int|
                0 <= i < encoded.request.targets@.len()
                    ==> checked.report.rejected_targets.contains(
                    rejection(
                        #[trigger] encoded.request.targets@[i],
                        RejectReason::StructureMismatch,
                    ),
                )
        },
{
    let targets = encoded.request.targets@;
    let gate = gate_rejections(core, encoded.request);
    law_rejections_are_distinct(gate);
    let mismatch = rejected_all(targets, RejectReason::StructureMismatch);
    assert forall|i: int| 0 <= i < targets.len() implies gate.contains(
        rejection(#[trigger] targets[i], RejectReason::StructureMismatch),
    ) by {
        let at = gate.len() - mismatch.len() + i;
        assert(gate[at] == mismatch[i]);
    }
    assert(gate.contains(rejection(targets[0], RejectReason::StructureMismatch)));
    assert(gate.len() > 0);
}

/// A check passes as a whole or yields nothing to apply: where it does not pass there is no edit,
/// no token, no page and a reason; where it passes there is a token, no rejection and no reason.
pub proof fn law_check_is_all_or_nothing(
    core: DocumentCore,
    request_json: Seq<char>,
    decoded: Result<EncodedRequest, String>,
    layout: LayoutModel,
)
    ensures
        preflight_of(core, request_json, decoded, layout) matches Ok(checked) ==> {
            let report = checked.report;
            &&& report.preflight_token == checked.token
            &&& report.ok <==> checked.token is Some
            &&& report.ok <==> report.reason is None
            &&& report.ok <==> report.changed_pages is Some
            &&& report.ok ==> report.rejected_targets.len() == 0
            &&& report.ok ==> decoded is Ok && report.targets.len()
                == decoded->Ok_0.request.targets@.len()
            &&& !report.ok ==> checked.edits.len() == 0 && checked.changed_paragraphs.len() == 0
                && report.targets.len() == 0
        },
{
    if let Ok(encoded) = decoded {
        lemma_resolutions(core, encoded.request.targets@, layout.overflow);
    }
}

/// Where no target of a run is rejected, each yields its own edit, in order.
pub proof fn lemma_resolutions(
    core: DocumentCore,
    targets: Seq<ApprovedEditTargetV1>,
    overflow: Option<OverflowMeasure>,
)
    ensures
        ({
            let r = resolutions_of(core, targets, overflow);
            &&& r.rejected.len() + r.edits.len() == targets.len()
            &&& r.edits.len() == r.changed_paragraphs.len()
            &&& r.rejected.len() == 0 ==> forall|i: int|
                0 <= i < targets.len() ==> {
                    let one = resolution_of(core, #[trigger] targets[i], overflow);
                    &&& one.rejected.len() == 0
                    &&& one.edits.len() == 1
                    &&& r.edits[i] == one.edits[0]
                }
        }),
    decreases targets.len(),
{
    if targets.len() > 0 {
        let init = targets.drop_last();
        lemma_resolutions(core, init, overflow);
        let r = resolutions_of(core, targets, overflow);
        let earlier = resolutions_of(core, init, overflow);
        let one = resolution_of(core, targets.last(), overflow);
        assert(one.rejected.len() + one.edits.len() == 1);
        if r.rejected.len() == 0 {
            assert forall|i: int| 0 <= i < targets.len() implies {
                let each = resolution_of(core, #[trigger] targets[i], overflow);
                &&& each.rejected.len() == 0
                &&& each.edits.len() == 1
                &&& r.edits[i] == each.edits[0]
            } by {
                if i < init.len() {
                    assert(init[i] == targets[i]);
                }
            }
        }
    }
}

/// What a target's place holds now.
pub open spec fn current_text(core: DocumentCore, target: ApprovedEditTargetV1) -> Seq<char> {
    match target {
        ApprovedEditTargetV1::NativeField { field_id, .. } => core.fields@[field_from(
            core.fields@,
            field_id,
            0,
        )->0].value@,
        ApprovedEditTargetV1::BodyPlaceholder { section_index, paragraph_index, .. } =>
            core.document.sections@[section_index as int].paragraphs@[paragraph_index as int].text@,
        ApprovedEditTargetV1::TableCell { table_index, row, col, .. } =>
            cell_text_of(
            cell_of(core.document, place_of(core.document, table_index, row, col)->Ok_0),
        ),
    }
}

/// The hash of the text that a target expects.
pub open spec fn expected_hash(target: ApprovedEditTargetV1) -> Seq<char> {
    match target {
        ApprovedEditTargetV1::NativeField { expected_value_hash, .. } => expected_value_hash@,
        ApprovedEditTargetV1::BodyPlaceholder { expected_text_hash, .. } => expected_text_hash@,
        ApprovedEditTargetV1::TableCell { expected_text_hash, .. } => expected_text_hash@,
    }
}

/// An accepted request holds one edit for each target, in order, with the identifier and the value
/// of the target and the text that its place holds; and that text is the one that was expected,
/// or already the value.
pub proof fn law_accepted_edits_match_targets(
    core: DocumentCore,
    request_json: Seq<char>,
    encoded: EncodedRequest,
    layout: LayoutModel,
)
    requires
        preflight_of(core, request_json, Ok(encoded), layout) is Ok,
        preflight_of(core, request_json, Ok(encoded), layout)->Ok_0.report.ok,
    ensures
        ({
            let checked = preflight_of(core, request_json, Ok(encoded), layout)->Ok_0;
            let targets = encoded.request.targets@;
            &&& checked.edits.len() == targets.len()
            &&& forall|i: int|
                #![trigger checked.edits[i]]
                #![trigger targets[i]]
                0 <= i < targets.len() ==> {
                    &&& checked.edits[i].id_text() == targets[i].id_text()
                    &&& checked.edits[i].value_text() == targets[i].value_text()
                    &&& checked.edits[i].old_text() == current_text(core, targets[i])
                    &&& text_hash_of(current_text(core, targets[i])) == expected_hash(targets[i])
                        || current_text(core, targets[i]) == targets[i].value_text()
                }
        }),
{
    let checked = preflight_of(core, request_json, Ok(encoded), layout)->Ok_0;
    let targets = encoded.request.targets@;
    lemma_resolutions(core, targets, layout.overflow);
    assert forall|i: int|
        #![trigger checked.edits[i]]
        #![trigger targets[i]]
        0 <= i < targets.len() implies {
        &&& checked.edits[i].id_text() == targets[i].id_text()
        &&& checked.edits[i].value_text() == targets[i].value_text()
        &&& checked.edits[i].old_text() == current_text(core, targets[i])
        &&& text_hash_of(current_text(core, targets[i])) == expected_hash(targets[i])
            || current_text(core, targets[i]) == targets[i].value_text()
    } by {
        let one = resolution_of(core, targets[i], layout.overflow);
        assert(one.edits.len() == 1);
    }
}

/// The token does not depend on what layout says: two checks of one request against one document
/// that pass agree on it. So a token from a check is good for applying the request to the
/// unchanged document, and no other token is.
pub proof fn law_token_is_good_for_its_check(
    core: DocumentCore,
    request_json: Seq<char>,
    decoded: Result<EncodedRequest, String>,
    layout: LayoutModel,
    later_layout: LayoutModel,
    start: ApplyStart,
    token: Seq<char>,
)
    requires
        preflight_of(core, request_json, decoded, layout) is Ok,
        preflight_of(core, request_json, decoded, layout)->Ok_0.report.ok,
        preflight_of(core, request_json, decoded, later_layout) is Ok,
        preflight_of(core, request_json, decoded, later_layout)->Ok_0.report.ok,
        starts_with(
            start,
            preflight_of(core, request_json, decoded, later_layout)->Ok_0,
            token,
        ),
    ensures
        start is Ready <==> preflight_of(core, request_json, decoded, layout)->Ok_0.token == Some(
            token,
        ),
{
}

/// A token is good for the request that it was given for and for no other, by the encodings of the
/// requests: of two requests that pass against one document, the token of the first starts the
/// second where they are encoded alike; where they are not, the second is refused as stale, unless
/// SHA-256 gives two different sources of tokens the same.
pub proof fn law_token_is_for_its_request(
    core: DocumentCore,
    request_json: Seq<char>,
    encoded: EncodedRequest,
    layout: LayoutModel,
    other_json: Seq<char>,
    other: EncodedRequest,
    other_layout: LayoutModel,
    start: ApplyStart,
)
    requires
        preflight_of(core, request_json, Ok(encoded), layout) is Ok,
        preflight_of(core, request_json, Ok(encoded), layout)->Ok_0.report.ok,
        preflight_of(core, other_json, Ok(other), other_layout) is Ok,
        preflight_of(core, other_json, Ok(other), other_layout)->Ok_0.report.ok,
        starts_with(
            start,
            preflight_of(core, other_json, Ok(other), other_layout)->Ok_0,
            preflight_of(core, request_json, Ok(encoded), layout)->Ok_0.token->0,
        ),
    ensures
        ({
            let source = token_bytes(digest_of(core), encoded.encoding->Ok_0@);
            let other_source = token_bytes(digest_of(core), other.encoding->Ok_0@);
            &&& encoded.encoding->Ok_0@ == other.encoding->Ok_0@ ==> start is Ready
            &&& encoded.encoding->Ok_0@ != other.encoding->Ok_0@ ==> {
                &&& source != other_source
                &&& (start matches ApplyStart::Refused(answer) && answer@ == stale_answer())
                    || sha256(source) == sha256(other_source)
            }
        }),
{
    let source = token_bytes(digest_of(core), encoded.encoding->Ok_0@);
    let other_source = token_bytes(digest_of(core), other.encoding->Ok_0@);
    let head = tag("rhwp-approved-template-preflight-v1\0") + encode_utf8(digest_of(core));
    if source == other_source {
        lemma_parts(head, encoded.encoding->Ok_0@, head, other.encoding->Ok_0@);
    }
    if digest_text(source) == digest_text(other_source) {
        law_equal_digests_are_of_equal_hashes(source, other_source);
    }
}

/// An application that is ready to start rests on a check that passed, and carries out its edits.
pub proof fn law_ready_means_checked(start: ApplyStart, checked: PreflightModel, token: Seq<char>)
    requires
        starts_with(start, checked, token),
    ensures
        start is Ready <==> checked.report.ok && checked.token == Some(token),
        start matches ApplyStart::Ready(plan) ==> plan@ == plan_of(checked),
{
}

/// What layout is asked about are the paragraphs that an accepted check reports, however the
/// measured value turns out.
pub proof fn law_layout_is_asked_about_what_changes(
    core: DocumentCore,
    request_json: Seq<char>,
    encoded: EncodedRequest,
    layout: LayoutModel,
)
    requires
        preflight_of(core, request_json, Ok(encoded), layout) is Ok,
        preflight_of(core, request_json, Ok(encoded), layout)->Ok_0.report.ok,
    ensures
        ({
            let checked = preflight_of(core, request_json, Ok(encoded), layout)->Ok_0;
            let asked = dry_run(core, encoded.request);
            &&& asked is Some
            &&& ascending(asked->0.changed_paragraphs) == checked.changed_paragraphs
            &&& measured_edit(asked->0.edits) == measured_edit(checked.edits)
        }),
{
    lemma_layout_independent(core, encoded.request.targets@, layout.overflow);
}

/// Pages are asked for exactly where no target is rejected: a request that comes so far without an
/// overflow is rejected with it only where it has a cell, and its value takes too many lines.
pub proof fn law_pages_are_asked_for_what_passes(
    core: DocumentCore,
    request: ApprovedTemplateEditRequestV1,
    overflow: Option<OverflowMeasure>,
)
    ensures
        dry_run(core, request) is Some && pages_wanted(request.targets@, overflow) <==> {
            &&& well_shaped(request)
            &&& gate_rejections(core, request).len() == 0
            &&& resolutions_of(core, request.targets@, overflow).rejected.len() == 0
        },
        dry_run(core, request) is Some ==> ascending(
            dry_run(core, request)->0.changed_paragraphs,
        ).len() > 0,
        dry_run(core, request) is Some ==> (request.targets@[0] is TableCell <==> measured_edit(
            dry_run(core, request)->0.edits,
        ) is Some),
{
    let targets = request.targets@;
    if well_shaped(request) && gate_rejections(core, request).len() == 0 {
        core.lemma_gate_open(request);
        if resolutions_of(core, targets, overflow).rejected.len() == 0 {
            lemma_layout_independent(core, targets, overflow);
            lemma_resolutions(core, targets, overflow);
            lemma_overflow_of_cells(core, targets[0], overflow);
        }
        if dry_run(core, request) is Some {
            lemma_dry_run(core, request);
            if pages_wanted(targets, overflow) {
                lemma_resolutions(core, targets, None);
                assert forall|i: int| 0 <= i < targets.len() implies resolution_of(
                    core,
                    #[trigger] targets[i],
                    overflow,
                ).rejected.len() == 0 by {
                    assert(resolution_of(core, targets[i], None).rejected.len() == 0);
                    lemma_overflow_of_cells(core, targets[i], overflow);
                }
                lemma_none_rejected(core, targets, overflow);
            }
        }
    }
}

/// An overflow decides about cells alone, and only by the lines that a value takes.
proof fn lemma_overflow_of_cells(
    core: DocumentCore,
    target: ApprovedEditTargetV1,
    overflow: Option<OverflowMeasure>,
)
    ensures
        resolution_of(core, target, overflow).rejected.len() == 0 <==> resolution_of(
            core,
            target,
            None,
        ).rejected.len() == 0 && (target is TableCell ==> (overflow matches Some(measure)
            ==> measure.lines <= target.line_limit())),
{
}

/// What is looked up of a request that comes so far: something changes, and a cell is to be
/// measured where one is named.
proof fn lemma_dry_run(core: DocumentCore, request: ApprovedTemplateEditRequestV1)
    requires
        dry_run(core, request) is Some,
    ensures
        ascending(dry_run(core, request)->0.changed_paragraphs).len() > 0,
        request.targets@[0] is TableCell <==> measured_edit(dry_run(core, request)->0.edits)
            is Some,
{
    let found = dry_run(core, request)->0;
    let first = request.targets@[0];
    lemma_resolutions(core, request.targets@, None);
    assert(resolution_of(core, first, None).rejected.len() == 0);
    assert(found.edits[0] == resolution_of(core, first, None).edits[0]);
    law_changed_paragraphs_ascend(found.changed_paragraphs);
    assert(found.changed_paragraphs.contains(found.changed_paragraphs[0]));
    assert(ascending(found.changed_paragraphs).contains(found.changed_paragraphs[0]));
}

/// Targets that are accepted with some overflow are accepted alike without one.
proof fn lemma_layout_independent(
    core: DocumentCore,
    targets: Seq<ApprovedEditTargetV1>,
    overflow: Option<OverflowMeasure>,
)
    requires
        resolutions_of(core, targets, overflow).rejected.len() == 0,
    ensures
        resolutions_of(core, targets, None).rejected.len() == 0,
        resolutions_of(core, targets, None).edits == resolutions_of(core, targets, overflow).edits,
        resolutions_of(core, targets, None).changed_paragraphs == resolutions_of(
            core,
            targets,
            overflow,
        ).changed_paragraphs,
    decreases targets.len(),
{
    if targets.len() > 0 {
        let with = resolutions_of(core, targets, overflow);
        let earlier = resolutions_of(core, targets.drop_last(), overflow);
        let one = resolution_of(core, targets.last(), overflow);
        assert(with.rejected.len() == earlier.rejected.len() + one.rejected.len());
        lemma_layout_independent(core, targets.drop_last(), overflow);
    }
}

/// A request whose form nothing speaks against, and which names the structure of a document that
/// is not protected, reaches the look-up of its targets.
pub open spec fn reaches_targets(
    core: DocumentCore,
    request_json: Seq<char>,
    encoded: EncodedRequest,
) -> bool {
    let targets = encoded.request.targets@;
    &&& reaches_gates(request_json, encoded)
    &&& form_rejections(targets, targets.len()).len() == 0
    &&& one_kind(targets)
    &&& !protected(core)
    &&& encoded.request.expected_structure_digest@ == inspection_of(core).structure_digest
    &&& encoded.encoding is Ok
}

/// Whether a check accepts every target of a request and reports each, with the text that its place
/// holds, the value that is to be written, and whether that changes anything.
pub open spec fn accepts(
    core: DocumentCore,
    request_json: Seq<char>,
    encoded: EncodedRequest,
    layout: LayoutModel,
) -> bool {
    let targets = encoded.request.targets@;
    preflight_of(core, request_json, Ok(encoded), layout) matches Ok(checked) && {
        &&& checked.report.ok
        &&& checked.report.rejected_targets.len() == 0
        &&& checked.report.targets.len() == targets.len()
        &&& forall|i: int|
            0 <= i < targets.len() ==> (#[trigger] checked.report.targets[i]) == (SummaryModel {
                target_id: targets[i].id_text(),
                original_value: current_text(core, targets[i]),
                proposed_value: targets[i].value_text(),
                changed: current_text(core, targets[i]) != targets[i].value_text(),
            })
    }
}

/// A request that reaches its targets, of which none is rejected, is accepted.
proof fn lemma_passes(
    core: DocumentCore,
    request_json: Seq<char>,
    encoded: EncodedRequest,
    layout: LayoutModel,
)
    requires
        reaches_targets(core, request_json, encoded),
        forall|i: int|
            0 <= i < encoded.request.targets@.len() ==> resolution_of(
                core,
                #[trigger] encoded.request.targets@[i],
                layout.overflow,
            ).rejected.len() == 0,
    ensures
        accepts(core, request_json, encoded, layout),
{
    let targets = encoded.request.targets@;
    lemma_none_rejected(core, targets, layout.overflow);
    law_accepted_edits_match_targets(core, request_json, encoded, layout);
    let checked = preflight_of(core, request_json, Ok(encoded), layout)->Ok_0;
    assert forall|i: int| 0 <= i < targets.len() implies (#[trigger] checked.report.targets[i]) == (
    SummaryModel {
        target_id: targets[i].id_text(),
        original_value: current_text(core, targets[i]),
        proposed_value: targets[i].value_text(),
        changed: current_text(core, targets[i]) != targets[i].value_text(),
    }) by {
        assert(checked.report.targets[i] == summary_of(checked.edits[i]));
    }
}

/// Where no target is rejected, none of the run is.
pub proof fn lemma_none_rejected(
    core: DocumentCore,
    targets: Seq<ApprovedEditTargetV1>,
    overflow: Option<OverflowMeasure>,
)
    requires
        forall|i: int|
            0 <= i < targets.len() ==> resolution_of(
                core,
                #[trigger] targets[i],
                overflow,
            ).rejected.len() == 0,
    ensures
        resolutions_of(core, targets, overflow).rejected.len() == 0,
    decreases targets.len(),
{
    if targets.len() > 0 {
        let init = targets.drop_last();
        assert forall|i: int| 0 <= i < init.len() implies resolution_of(
            core,
            #[trigger] init[i],
            overflow,
        ).rejected.len() == 0 by {
            assert(init[i] == targets[i]);
        }
        lemma_none_rejected(core, init, overflow);
        assert(targets.last() == targets[targets.len() - 1]);
    }
}

/// A listed candidate of a section is one of its paragraphs.
proof fn lemma_section_candidate(
    paragraphs: Seq<Paragraph>,
    section_index: int,
    n: nat,
    k: int,
)
    requires
        n <= paragraphs.len(),
        0 <= k < section_candidates(paragraphs, section_index, n).len(),
    ensures
        ({
            let m = section_candidates(paragraphs, section_index, n)[k];
            &&& m.section_index == section_index
            &&& 0 <= m.paragraph_index < n
            &&& is_candidate(paragraphs[m.paragraph_index])
            &&& m == body_model(paragraphs, section_index, m.paragraph_index)
        }),
    decreases n,
{
    let earlier = section_candidates(paragraphs, section_index, (n - 1) as nat);
    if k < earlier.len() {
        lemma_section_candidate(paragraphs, section_index, (n - 1) as nat, k);
    }
}

/// A listed candidate is a paragraph of the body.
proof fn lemma_body_candidate(sections: Seq<Section>, n: nat, k: int)
    requires
        n <= sections.len(),
        0 <= k < body_candidates_of(sections, n).len(),
    ensures
        ({
            let m = body_candidates_of(sections, n)[k];
            let paragraphs = sections[m.section_index].paragraphs@;
            &&& 0 <= m.section_index < n
            &&& 0 <= m.paragraph_index < paragraphs.len()
            &&& is_candidate(paragraphs[m.paragraph_index])
            &&& m == body_model(paragraphs, m.section_index, m.paragraph_index)
        }),
    decreases n,
{
    let earlier = body_candidates_of(sections, (n - 1) as nat);
    if k < earlier.len() {
        lemma_body_candidate(sections, (n - 1) as nat, k);
    } else {
        let paragraphs = sections[n - 1].paragraphs@;
        lemma_section_candidate(paragraphs, n - 1, paragraphs.len(), k - earlier.len());
    }
}

/// Whether `target` names the body paragraph that an inspection reports as `candidate`.
pub open spec fn names_body(target: ApprovedEditTargetV1, candidate: BodyModel) -> bool {
    target matches ApprovedEditTargetV1::BodyPlaceholder {
        section_index,
        paragraph_index,
        expected_text_hash,
        adjacent_label_digest,
        ..
    } && {
        &&& section_index == candidate.section_index
        &&& paragraph_index == candidate.paragraph_index
        &&& expected_text_hash@ == candidate.text_hash
        &&& adjacent_label_digest@ == candidate.adjacent_label_digest
    }
}

/// What an inspection reports of a body paragraph is what a request for it needs: with these
/// hashes, a well-formed request is accepted for the document that was inspected.
pub proof fn law_inspected_body_is_accepted(
    core: DocumentCore,
    k: int,
    request_json: Seq<char>,
    encoded: EncodedRequest,
    layout: LayoutModel,
)
    requires
        0 <= k < inspection_of(core).body_candidates.len(),
        reaches_targets(core, request_json, encoded),
        encoded.request.targets@.len() == 1,
        names_body(encoded.request.targets@[0], inspection_of(core).body_candidates[k]),
    ensures
        accepts(core, request_json, encoded, layout),
{
    let sections = core.document.sections@;
    lemma_body_candidate(sections, sections.len(), k);
    lemma_passes(core, request_json, encoded, layout);
}

/// A listed cell is a cell of a numbered table of the body.
proof fn lemma_table_cell(document: Document, n: nat, k: int)
    requires
        n <= document.tables@.len(),
        0 <= k < table_cells_of(document, n).len(),
    ensures
        exists|g: int, i: int|
            #![trigger document.tables@[g], grid_cells(document, document.tables@[g])[i]]
            {
                &&& 0 <= g < n
                &&& 0 <= i < grid_cells(document, document.tables@[g]).len()
                &&& table_cells_of(document, n)[k] == grid_cells(document, document.tables@[g])[i]
            },
    decreases n,
{
    let earlier = table_cells_of(document, (n - 1) as nat);
    if k < earlier.len() {
        lemma_table_cell(document, (n - 1) as nat, k);
    } else {
        let here = grid_cells(document, document.tables@[n - 1]);
        assert(table_cells_of(document, n)[k] == here[k - earlier.len()]);
    }
}

/// Whether `target` names the cell that an inspection reports as `cell`, and keeps its style.
pub open spec fn names_cell(target: ApprovedEditTargetV1, cell: CellModel) -> bool {
    target matches ApprovedEditTargetV1::TableCell {
        table_index,
        row,
        col,
        expected_text_hash,
        adjacent_label_digest,
        merged_anchor,
        keep_style,
        ..
    } && {
        &&& table_index == cell.table_index
        &&& row == cell.row
        &&& col == cell.col
        &&& expected_text_hash@ == cell.text_hash
        &&& adjacent_label_digest@ == cell.adjacent_label_digest
        &&& merged_anchor.row == row
        &&& merged_anchor.col == col
        &&& keep_style
    }
}

/// Whether the table number and the anchor of an inspected cell lead to a cell of which the same is
/// reported: the same text and the same labels by their hashes, and nothing that blocks it.
pub open spec fn leads_back(document: Document, cell: CellModel) -> bool {
    place_of(document, cell.table_index, cell.row, cell.col) matches Ok(place) && {
        let table = table_at(
            document,
            place.grid.section as int,
            place.grid.paragraph as int,
            place.grid.control as int,
        )->0;
        let found = cell_model(place.grid, table, place.cell);
        &&& found.text_hash == cell.text_hash
        &&& found.adjacent_label_digest == cell.adjacent_label_digest
        &&& found.blocked_reasons == cell.blocked_reasons
    }
}

/// What an inspection reports of a cell that nothing blocks is what a request for it needs: with
/// these hashes, a well-formed request is accepted for the document that was inspected, unless
/// its number and anchor lead to another cell, or its value is measured to take more lines than it
/// allows.
pub proof fn law_inspected_cell_is_accepted(
    core: DocumentCore,
    k: int,
    request_json: Seq<char>,
    encoded: EncodedRequest,
    layout: LayoutModel,
)
    requires
        0 <= k < inspection_of(core).table_cells.len(),
        inspection_of(core).table_cells[k].blocked_reasons.len() == 0,
        leads_back(core.document, inspection_of(core).table_cells[k]),
        reaches_targets(core, request_json, encoded),
        encoded.request.targets@.len() == 1,
        names_cell(encoded.request.targets@[0], inspection_of(core).table_cells[k]),
        layout.overflow matches Some(measure) ==> measure.lines
            <= encoded.request.targets@[0].line_limit(),
    ensures
        accepts(core, request_json, encoded, layout),
{
    let document = core.document;
    let listed_cell = inspection_of(core).table_cells[k];
    let place = place_of(document, listed_cell.table_index, listed_cell.row, listed_cell.col)->Ok_0;
    let table = table_at(
        document,
        place.grid.section as int,
        place.grid.paragraph as int,
        place.grid.control as int,
    )->0;
    lemma_anchored(table.cells@, listed_cell.row, listed_cell.col, 0);
    assert(table.cells@[place.cell] == cell_of(document, place));
    lemma_passes(core, request_json, encoded, layout);
}

/// Whether at most one table of the body bears the given number.
pub open spec fn number_is_unique(document: Document, table_no: usize) -> bool {
    forall|g: int, h: int|
        0 <= g < h < document.tables@.len() && (#[trigger] document.tables@[g]).index == table_no
            && document.tables@[g].top_level() && (#[trigger] document.tables@[h]).index == table_no
            ==> !document.tables@[h].top_level()
}

/// The table that is found is a table of the body and bears the number; where none is found, none
/// is.
proof fn lemma_numbered(tables: Seq<TableGrid>, table_no: usize, from: int)
    requires
        0 <= from,
    ensures
        match numbered_from(tables, table_no, from) {
            Some(g) => from <= g < tables.len() && tables[g].index == table_no
                && tables[g].top_level(),
            None => forall|g: int|
                from <= g < tables.len() && (#[trigger] tables[g]).index == table_no
                    ==> !tables[g].top_level(),
        },
    decreases tables.len() - from,
{
    if from < tables.len() && !(tables[from].index == table_no && tables[from].top_level()) {
        lemma_numbered(tables, table_no, from + 1);
    }
}

/// An inspected cell leads back to itself where no other table of the body bears its number, and
/// where it lies in the grid of its table and is the first cell that is anchored there.
pub proof fn law_inspected_cell_leads_back(core: DocumentCore, k: int)
    requires
        0 <= k < inspection_of(core).table_cells.len(),
        number_is_unique(core.document, inspection_of(core).table_cells[k].table_index),
        ({
            let cell = inspection_of(core).table_cells[k];
            let table = table_at(
                core.document,
                cell.section_index as int,
                cell.paragraph_index as int,
                cell.control_index as int,
            )->0;
            &&& cell.row < table.row_count
            &&& cell.col < table.col_count
            &&& anchored_from(table.cells@, cell.row, cell.col, 0) == Some(cell.cell_index)
        }),
    ensures
        leads_back(core.document, inspection_of(core).table_cells[k]),
{
    let document = core.document;
    let cell = inspection_of(core).table_cells[k];
    lemma_table_cell(document, document.tables@.len(), k);
    let (g, i) = choose|g: int, i: int|
        #![trigger document.tables@[g], grid_cells(document, document.tables@[g])[i]]
        {
            &&& 0 <= g < document.tables@.len()
            &&& 0 <= i < grid_cells(document, document.tables@[g]).len()
            &&& table_cells_of(document, document.tables@.len())[k] == grid_cells(
                document,
                document.tables@[g],
            )[i]
        };
    let grid = document.tables@[g];
    let table = table_at(
        document,
        grid.section as int,
        grid.paragraph as int,
        grid.control as int,
    )->0;
    assert(cell == cell_model(grid, table, i));
    assert(grid.top_level());
    lemma_numbered(document.tables@, cell.table_index, 0);
    let found = numbered_from(document.tables@, cell.table_index, 0)->0;
    assert(found == g) by {
        if found < g {
            assert(document.tables@[found].top_level());
        } else if g < found {
            assert(document.tables@[found].top_level());
        }
    }
}

/// A listed field is one of the document's.
proof fn lemma_native_field(fields: Seq<FieldEntry>, n: nat, k: int)
    requires
        n <= fields.len(),
        0 <= k < native_fields_of(fields, n).len(),
    ensures
        exists|f: int|
            0 <= f < n && (#[trigger] fields[f]).field.ctrl_id != 0 && native_fields_of(
                fields,
                n,
            )[k] == (FieldModel {
                field_id: fields[f].field.field_id,
                editable: fields[f].editable_in_form,
                value_hash: text_hash_of(fields[f].value@),
            }),
    decreases n,
{
    let earlier = native_fields_of(fields, (n - 1) as nat);
    if k < earlier.len() {
        lemma_native_field(fields, (n - 1) as nat, k);
    } else {
        assert(fields[n - 1].field.ctrl_id != 0);
    }
}

/// The field that is found bears the identifier; where none is found, none does.
proof fn lemma_field(fields: Seq<FieldEntry>, field_id: u32, from: int)
    requires
        0 <= from,
    ensures
        match field_from(fields, field_id, from) {
            Some(f) => from <= f < fields.len() && fields[f].field.field_id == field_id,
            None => forall|f: int|
                from <= f < fields.len() ==> (#[trigger] fields[f]).field.field_id != field_id,
        },
    decreases fields.len() - from,
{
    if from < fields.len() && fields[from].field.field_id != field_id {
        lemma_field(fields, field_id, from + 1);
    }
}

/// Whether no two fields bear the given identifier.
pub open spec fn at_most_one(fields: Seq<FieldEntry>, field_id: u32) -> bool {
    forall|i: int, j: int|
        0 <= i < j < fields.len() && (#[trigger] fields[i]).field.field_id == field_id ==> (
        #[trigger] fields[j]).field.field_id != field_id
}

/// What an inspection reports of editable fields is what a request for them needs: with these
/// hashes, a well-formed request is accepted for the document that was inspected, unless it names
/// an identifier that two fields bear.
pub proof fn law_inspected_fields_are_accepted(
    core: DocumentCore,
    request_json: Seq<char>,
    encoded: EncodedRequest,
    layout: LayoutModel,
)
    requires
        reaches_targets(core, request_json, encoded),
        forall|i: int|
            0 <= i < encoded.request.targets@.len() ==> exists|k: int|
                0 <= k < inspection_of(core).native_fields.len() && names_field(
                    #[trigger] encoded.request.targets@[i],
                    #[trigger] inspection_of(core).native_fields[k],
                ) && at_most_one(core.fields@, inspection_of(core).native_fields[k].field_id),
    ensures
        accepts(core, request_json, encoded, layout),
{
    let targets = encoded.request.targets@;
    let fields = core.fields@;
    let listed_fields = inspection_of(core).native_fields;
    assert forall|i: int| 0 <= i < targets.len() implies resolution_of(
        core,
        #[trigger] targets[i],
        layout.overflow,
    ).rejected.len() == 0 by {
        let k = choose|k: int|
            0 <= k < listed_fields.len() && names_field(targets[i], #[trigger] listed_fields[k])
                && at_most_one(fields, listed_fields[k].field_id);
        lemma_native_field(fields, fields.len(), k);
        let f = choose|f: int|
            0 <= f < fields.len() && (#[trigger] fields[f]).field.ctrl_id != 0
                && listed_fields[k] == (FieldModel {
                field_id: fields[f].field.field_id,
                editable: fields[f].editable_in_form,
                value_hash: text_hash_of(fields[f].value@),
            });
        lemma_field(fields, fields[f].field.field_id, 0);
        let found = field_from(fields, fields[f].field.field_id, 0)->0;
        assert(found == f) by {
            if found < f {
                assert(fields[found].field.field_id != fields[f].field.field_id);
            } else if f < found {
                assert(fields[f].field.field_id != fields[found].field.field_id);
            }
        }
    }
    lemma_passes(core, request_json, encoded, layout);
}

/// Whether `target` names the editable field that an inspection reports as `field`.
pub open spec fn names_field(
    target: ApprovedEditTargetV1,
    field: FieldModel,
) -> bool {
    target matches ApprovedEditTargetV1::NativeField { field_id, expected_value_hash, .. } && {
        &&& field_id == field.field_id
        &&& expected_value_hash@ == field.value_hash
        &&& field.editable
    }
}

} // verus!
