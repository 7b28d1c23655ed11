//! Which requests a check refuses, and for what; which it accepts, and what it then reports.

use vstd::prelude::*;
use vstd::utf8::encode_utf8;

use crate::digest::{digest_text, structure_bytes};
use crate::finding_laws::{
    bears, first_anchored, first_bearing, has_stand_in, holds_object,
    law_coordinates_find_their_cell, law_first_covering_cell_is_found, law_number_leads_to_no_table,
    leads_to, lemma_numbered_from, lies_over,
};
use crate::label::{adjacent_bytes, body_adjacent_bytes, text_hash_of};
use crate::laws::law_rejections_are_distinct;
use crate::model::{Cell, Control, Document, DocumentCore, FieldEntry, Paragraph, Table};
use crate::preflight::{
    address_fault, field_from, form_rejections, form_rejections_at, gate_rejections, id_fault,
    line_limit_fault, one_kind, preflight_of, protected, rejected_all, rejected_if, rejection,
    value_fault, well_shaped, LayoutModel, PreflightModel,
};
use crate::protection::{document_counts, ComplexityStats};
use crate::protection_laws::law_protected_by_its_counts;
use crate::report::{distinct, FailureReason, OverflowMeasure, RejectReason, RejectionModel};
use crate::request::{ApprovedEditTargetV1, ApprovedTemplateEditRequestV1, EncodedRequest};
use crate::table::{
    anchored_from, cell_text_of, covering_from, lemma_anchored, numbered_from, place_of, table_at,
    CellFault,
};
use crate::text::{line_count, unsafe_control};
use crate::text_laws::{
    forbidden_code, law_lines_are_between_line_feeds, law_safe_identifiers, law_unsafe_characters,
    plain_identifier,
};

verus! {

/// What every target has, of whatever kind it is.
pub struct Form {
    pub id: Seq<char>,
    pub value: Seq<char>,
    pub max_chars: usize,
    pub max_lines: usize,
}

/// What a target says of itself.
pub open spec fn form_of(target: ApprovedEditTargetV1) -> Form {
    match target {
        ApprovedEditTargetV1::NativeField { target_id, value, max_chars, max_lines, .. } => Form {
            id: target_id@,
            value: value@,
            max_chars,
            max_lines,
        },
        ApprovedEditTargetV1::BodyPlaceholder { target_id, value, max_chars, max_lines, .. } =>
            Form { id: target_id@, value: value@, max_chars, max_lines },
        ApprovedEditTargetV1::TableCell { target_id, value, max_chars, max_lines, .. } => Form {
            id: target_id@,
            value: value@,
            max_chars,
            max_lines,
        },
    }
}

/// Whether two targets name the same field, the same paragraph of the body, or the same coordinates
/// of the same table.
pub open spec fn same_address(a: ApprovedEditTargetV1, b: ApprovedEditTargetV1) -> bool {
    match (a, b) {
        (
            ApprovedEditTargetV1::NativeField { field_id: f, .. },
            ApprovedEditTargetV1::NativeField { field_id: g, .. },
        ) => f == g,
        (
            ApprovedEditTargetV1::BodyPlaceholder { section_index: s, paragraph_index: p, .. },
            ApprovedEditTargetV1::BodyPlaceholder { section_index: t, paragraph_index: q, .. },
        ) => s == t && p == q,
        (
            ApprovedEditTargetV1::TableCell { table_index: m, row: r, col: c, .. },
            ApprovedEditTargetV1::TableCell { table_index: n, row: s, col: d, .. },
        ) => m == n && r == s && c == d,
        _ => false,
    }
}

/// Whether a request has the shape of one: no more than a million bytes, version 1, a plain
/// template identifier, and one to a hundred targets.
pub open spec fn shaped(request_json: Seq<char>, request: ApprovedTemplateEditRequestV1) -> bool {
    &&& encode_utf8(request_json).len() <= 1_000_000
    &&& request.schema_version == 1
    &&& plain_identifier(request.template_id@)
    &&& 1 <= request.targets@.len() <= 100
}

/// Whether a document of so many pages that holds so much is to be left alone.
pub open spec fn too_complex(page_count: u32, stats: ComplexityStats) -> bool {
    ||| stats.nested_table_count > 0
    ||| stats.table_count >= 20
    ||| page_count >= 4 && stats.table_count >= 12
    ||| page_count >= 4 && stats.picture_count >= 5
    ||| page_count >= 4 && stats.shape_count >= 5
    ||| stats.table_count >= 12 && stats.picture_count >= 5
    ||| stats.table_count >= 12 && stats.shape_count >= 5
    ||| stats.picture_count >= 5 && stats.shape_count >= 5
}

/// Whether the `i`th target is at fault for the given reason before anything is looked up: by its
/// own form, by what the targets before it name, or by what the request or the document is.
pub open spec fn at_fault(
    core: DocumentCore,
    request: ApprovedTemplateEditRequestV1,
    i: int,
    reason: RejectReason,
) -> bool {
    let targets = request.targets@;
    let form = form_of(targets[i]);
    match reason {
        RejectReason::InvalidOrDuplicateTargetId => !plain_identifier(form.id) || exists|j: int|
            0 <= j < i && form_of(#[trigger] targets[j]).id == form.id,
        RejectReason::InvalidValue => {
            ||| form.max_chars == 0
            ||| form.max_chars > 20_000
            ||| form.value.len() > form.max_chars
            ||| exists|k: int|
                0 <= k < form.value.len() && forbidden_code(#[trigger] form.value[k] as int)
        },
        RejectReason::InvalidMaxLines => form.max_lines == 0 || form.max_lines > 1_000,
        RejectReason::MaxLinesExceeded => {
            &&& 1 <= form.max_lines <= 1_000
            &&& form.value.len() > 0
            &&& form.value.filter(|c: char| c == '\n').len() + 1 > form.max_lines
        },
        RejectReason::DuplicateTargetAddress => exists|j: int|
            0 <= j < i && same_address(#[trigger] targets[j], targets[i]),
        RejectReason::MixedOrMultipleVirtualTargets => targets.len() > 1 && exists|j: int|
            0 <= j < targets.len() && !((#[trigger] targets[j]) is NativeField),
        RejectReason::ProtectedDocument => too_complex(
            core.page_count,
            document_counts(core.document).reported(),
        ),
        RejectReason::StructureMismatch => request.expected_structure_digest@ != digest_text(
            structure_bytes(core.document),
        ),
        _ => false,
    }
}

/// Whether a rejection is of some target that is at fault for its reason.
pub open spec fn is_due(
    core: DocumentCore,
    request: ApprovedTemplateEditRequestV1,
    r: RejectionModel,
) -> bool {
    exists|i: int|
        0 <= i < request.targets@.len() && form_of(#[trigger] request.targets@[i]).id == r.target_id
            && at_fault(core, request, i, r.reason)
}

/// A request of another shape is not well shaped.
pub proof fn lemma_shaped(request_json: Seq<char>, request: ApprovedTemplateEditRequestV1)
    ensures
        shaped(request_json, request) <==> encode_utf8(request_json).len() <= 1_000_000
            && well_shaped(request),
{
    law_safe_identifiers(request.template_id@);
}

/// A request that has not the shape of one is invalid as a whole: it is refused for that reason and
/// no other, no target of it is looked at, and nothing is left to apply. No other request is.
pub proof fn law_shapeless_requests_are_invalid(
    core: DocumentCore,
    request_json: Seq<char>,
    encoded: EncodedRequest,
    layout: LayoutModel,
)
    ensures
        ({
            let found = preflight_of(core, request_json, Ok(encoded), layout);
            &&& !shaped(request_json, encoded.request) <==> (found matches Ok(checked)
                && checked.report.reason == Some(FailureReason::InvalidRequest))
            &&& !shaped(request_json, encoded.request) ==> (found matches Ok(checked)
                && refused_whole(checked, FailureReason::InvalidRequest)
                && checked.report.rejected_targets.len() == 0)
        }),
{
    lemma_shaped(request_json, encoded.request);
}

/// A request that cannot be decoded is an error that quotes the one of decoding it, unless it is
/// longer than a million bytes, and then it is invalid.
pub proof fn law_undecoded_requests(
    core: DocumentCore,
    request_json: Seq<char>,
    error: String,
    layout: LayoutModel,
)
    ensures
        ({
            let found = preflight_of(core, request_json, Err(error), layout);
            &&& encode_utf8(request_json).len() <= 1_000_000 ==> found == Err::<
                PreflightModel,
                Seq<char>,
            >("승인 편집 요청 JSON 오류: "@ + error@)
            &&& encode_utf8(request_json).len() > 1_000_000 ==> (found matches Ok(checked)
                && refused_whole(checked, FailureReason::InvalidRequest)
                && checked.report.rejected_targets.len() == 0)
        }),
{
}

/// Whether a check has refused a request for the given reason, and leaves nothing to apply.
pub open spec fn refused_whole(checked: PreflightModel, reason: FailureReason) -> bool {
    &&& !checked.report.ok
    &&& checked.report.reason == Some(reason)
    &&& checked.report.changed_pages is None
    &&& checked.report.preflight_token is None
    &&& checked.report.targets.len() == 0
    &&& checked.edits.len() == 0
    &&& checked.changed_paragraphs.len() == 0
    &&& checked.token is None
}

/// Which of five rejections are among those that are due.
proof fn lemma_due_if(
    a: bool,
    b: bool,
    c: bool,
    d: bool,
    e: bool,
    target: ApprovedEditTargetV1,
    r: RejectionModel,
)
    ensures
        ({
            let all = rejected_if(a, target, RejectReason::InvalidOrDuplicateTargetId)
                + rejected_if(b, target, RejectReason::InvalidValue) + rejected_if(
                c,
                target,
                RejectReason::InvalidMaxLines,
            ) + rejected_if(d, target, RejectReason::MaxLinesExceeded) + rejected_if(
                e,
                target,
                RejectReason::DuplicateTargetAddress,
            );
            all.contains(r) <==> r.target_id == target.id_text() && match r.reason {
                RejectReason::InvalidOrDuplicateTargetId => a,
                RejectReason::InvalidValue => b,
                RejectReason::InvalidMaxLines => c,
                RejectReason::MaxLinesExceeded => d,
                RejectReason::DuplicateTargetAddress => e,
                _ => false,
            }
        }),
{
    let s1 = rejected_if(a, target, RejectReason::InvalidOrDuplicateTargetId);
    let s2 = rejected_if(b, target, RejectReason::InvalidValue);
    let s3 = rejected_if(c, target, RejectReason::InvalidMaxLines);
    let s4 = rejected_if(d, target, RejectReason::MaxLinesExceeded);
    let s5 = rejected_if(e, target, RejectReason::DuplicateTargetAddress);
    lemma_in_either(s1 + s2 + s3 + s4, s5, r);
    lemma_in_either(s1 + s2 + s3, s4, r);
    lemma_in_either(s1 + s2, s3, r);
    lemma_in_either(s1, s2, r);
    lemma_in_one(a, target, RejectReason::InvalidOrDuplicateTargetId, r);
    lemma_in_one(b, target, RejectReason::InvalidValue, r);
    lemma_in_one(c, target, RejectReason::InvalidMaxLines, r);
    lemma_in_one(d, target, RejectReason::MaxLinesExceeded, r);
    lemma_in_one(e, target, RejectReason::DuplicateTargetAddress, r);
}

/// What two sequences together hold.
pub proof fn lemma_in_either<T>(a: Seq<T>, b: Seq<T>, x: T)
    ensures
        (a + b).contains(x) <==> a.contains(x) || b.contains(x),
{
    let both = a + b;
    if a.contains(x) {
        let k = choose|k: int| 0 <= k < a.len() && a[k] == x;
        assert(both[k] == x);
    }
    if b.contains(x) {
        let k = choose|k: int| 0 <= k < b.len() && b[k] == x;
        assert(both[a.len() + k] == x);
    }
    if both.contains(x) {
        let k = choose|k: int| 0 <= k < both.len() && both[k] == x;
        if k < a.len() {
            assert(a[k] == x);
        } else {
            assert(b[k - a.len()] == x);
        }
    }
}

/// What a rejection that may be due holds.
proof fn lemma_in_one(
    due: bool,
    target: ApprovedEditTargetV1,
    reason: RejectReason,
    r: RejectionModel,
)
    ensures
        rejected_if(due, target, reason).contains(r) <==> due && r == rejection(target, reason),
{
    if due {
        assert(rejected_if(due, target, reason)[0] == rejection(target, reason));
    }
}

/// What the rejection of every target holds.
proof fn lemma_in_all(targets: Seq<ApprovedEditTargetV1>, reason: RejectReason, r: RejectionModel)
    ensures
        rejected_all(targets, reason).contains(r) <==> r.reason == reason && exists|i: int|
            0 <= i < targets.len() && form_of(#[trigger] targets[i]).id == r.target_id,
{
    let all = rejected_all(targets, reason);
    if all.contains(r) {
        let i = choose|i: int| 0 <= i < all.len() && all[i] == r;
        assert(form_of(targets[i]).id == r.target_id);
    }
    if r.reason == reason && exists|i: int|
        0 <= i < targets.len() && form_of(#[trigger] targets[i]).id == r.target_id {
        let i = choose|i: int|
            0 <= i < targets.len() && form_of(#[trigger] targets[i]).id == r.target_id;
        assert(all[i] == r);
    }
}

/// The rejections that the form of one target brings are those for which it is at fault.
pub proof fn lemma_form_at(
    core: DocumentCore,
    request: ApprovedTemplateEditRequestV1,
    i: int,
    r: RejectionModel,
)
    requires
        0 <= i < request.targets@.len(),
    ensures
        form_rejections_at(request.targets@, i).contains(r) <==> r.target_id == form_of(
            request.targets@[i],
        ).id && of_form(r.reason) && at_fault(core, request, i, r.reason),
{
    let targets = request.targets@;
    let target = targets[i];
    let form = form_of(target);
    lemma_due_if(
        id_fault(targets, i),
        value_fault(target),
        line_limit_fault(target),
        !line_limit_fault(target) && line_count(target.value_text()) > target.line_limit(),
        address_fault(targets, i),
        target,
        r,
    );
    law_safe_identifiers(form.id);
    law_lines_are_between_line_feeds(form.value);
    assert forall|k: int| 0 <= k < form.value.len() implies (unsafe_control(
        #[trigger] form.value[k],
    ) <==> forbidden_code(form.value[k] as int)) by {
        law_unsafe_characters(form.value[k]);
    }
    assert forall|j: int| 0 <= j < i implies ((#[trigger] targets[j]).place() == target.place()
        <==> same_address(targets[j], target)) by {}
    assert forall|j: int| 0 <= j < i implies (#[trigger] targets[j]).id_text() == form_of(
        targets[j],
    ).id by {}
    if id_fault(targets, i) && plain_identifier(form.id) {
        let j = choose|j: int| 0 <= j < i && (#[trigger] targets[j]).id_text() == target.id_text();
        assert(form_of(targets[j]).id == form.id);
    }
    if address_fault(targets, i) {
        let j = choose|j: int| 0 <= j < i && (#[trigger] targets[j]).place() == target.place();
        assert(same_address(targets[j], target));
    }
    if exists|k: int|
        0 <= k < form.value.len() && forbidden_code(#[trigger] form.value[k] as int) {
        let k = choose|k: int|
            0 <= k < form.value.len() && forbidden_code(#[trigger] form.value[k] as int);
        assert(unsafe_control(target.value_text()[k]));
    }
    if exists|k: int|
        0 <= k < form.value.len() && unsafe_control(#[trigger] target.value_text()[k]) {
        let k = choose|k: int|
            0 <= k < form.value.len() && unsafe_control(#[trigger] target.value_text()[k]);
        assert(forbidden_code(form.value[k] as int));
    }
}

/// Whether a reason is one of those that the form of a target brings.
pub open spec fn of_form(reason: RejectReason) -> bool {
    ||| reason == RejectReason::InvalidOrDuplicateTargetId
    ||| reason == RejectReason::InvalidValue
    ||| reason == RejectReason::InvalidMaxLines
    ||| reason == RejectReason::MaxLinesExceeded
    ||| reason == RejectReason::DuplicateTargetAddress
}

/// The rejections that the form of the first targets brings.
proof fn lemma_form_rejections(
    core: DocumentCore,
    request: ApprovedTemplateEditRequestV1,
    n: nat,
    r: RejectionModel,
)
    requires
        n <= request.targets@.len(),
    ensures
        form_rejections(request.targets@, n).contains(r) <==> of_form(r.reason) && exists|i: int|
            0 <= i < n && form_of(#[trigger] request.targets@[i]).id == r.target_id && at_fault(
                core,
                request,
                i,
                r.reason,
            ),
    decreases n,
{
    let targets = request.targets@;
    if n > 0 {
        lemma_form_rejections(core, request, (n - 1) as nat, r);
        lemma_form_at(core, request, n - 1, r);
        lemma_in_either(
            form_rejections(targets, (n - 1) as nat),
            form_rejections_at(targets, n - 1),
            r,
        );
        if form_rejections_at(targets, n - 1).contains(r) {
            assert(form_of(targets[n - 1]).id == r.target_id);
        }
    }
}

/// The rejections before anything is looked up are those for which some target is at fault.
pub proof fn lemma_gate(
    core: DocumentCore,
    request: ApprovedTemplateEditRequestV1,
    r: RejectionModel,
)
    requires
        request.targets@.len() > 0,
    ensures
        gate_rejections(core, request).contains(r) <==> is_due(core, request, r),
{
    let targets = request.targets@;
    let stats = document_counts(core.document).reported();
    let form = form_rejections(targets, targets.len());
    let kinds: Seq<RejectionModel> = if one_kind(targets) {
        seq![]
    } else {
        rejected_all(targets, RejectReason::MixedOrMultipleVirtualTargets)
    };
    let guarded: Seq<RejectionModel> = if protected(core) {
        rejected_all(targets, RejectReason::ProtectedDocument)
    } else {
        seq![]
    };
    let structure: Seq<RejectionModel> = if request.expected_structure_digest@ == digest_text(
        structure_bytes(core.document),
    ) {
        seq![]
    } else {
        rejected_all(targets, RejectReason::StructureMismatch)
    };
    lemma_in_either(form + kinds + guarded, structure, r);
    lemma_in_either(form + kinds, guarded, r);
    lemma_in_either(form, kinds, r);
    lemma_form_rejections(core, request, targets.len(), r);
    lemma_in_all(targets, RejectReason::MixedOrMultipleVirtualTargets, r);
    lemma_in_all(targets, RejectReason::ProtectedDocument, r);
    lemma_in_all(targets, RejectReason::StructureMismatch, r);
    law_protected_by_its_counts(core.page_count, stats);
    if !one_kind(targets) {
        let j = choose|j: int|
            0 <= j < targets.len() && !((#[trigger] targets[j]) is NativeField);
        assert(!(targets[j] is NativeField));
    }
    if is_due(core, request, r) {
        let i = choose|i: int|
            0 <= i < targets.len() && form_of(#[trigger] targets[i]).id == r.target_id && at_fault(
                core,
                request,
                i,
                r.reason,
            );
        assert(form_of(targets[i]).id == r.target_id);
    }
}

/// Before anything is looked up, a target is rejected for every reason for which it is at fault and
/// for no other, each rejection is reported once, and nothing is left to apply.
pub proof fn law_faults_are_rejected(
    core: DocumentCore,
    request_json: Seq<char>,
    encoded: EncodedRequest,
    layout: LayoutModel,
    i: int,
    reason: RejectReason,
)
    requires
        shaped(request_json, encoded.request),
        0 <= i < encoded.request.targets@.len(),
        at_fault(core, encoded.request, i, reason),
    ensures
        preflight_of(core, request_json, Ok(encoded), layout) matches Ok(checked) && {
            &&& refused_whole(checked, FailureReason::PreflightRejected)
            &&& checked.report.warnings.len() == 0
            &&& checked.report.overflow_targets.len() == 0
            &&& checked.report.rejected_targets.no_duplicates()
            &&& forall|r: RejectionModel| #[trigger]
                checked.report.rejected_targets.contains(r) <==> is_due(core, encoded.request, r)
        },
{
    let request = encoded.request;
    let gate = gate_rejections(core, request);
    lemma_shaped(request_json, request);
    let first = RejectionModel { target_id: form_of(request.targets@[i]).id, reason };
    assert(is_due(core, request, first));
    lemma_gate(core, request, first);
    assert(gate.len() > 0);
    law_rejections_are_distinct(gate);
    let checked = preflight_of(core, request_json, Ok(encoded), layout)->Ok_0;
    assert forall|r: RejectionModel| #[trigger]
        checked.report.rejected_targets.contains(r) <==> is_due(core, request, r) by {
        lemma_gate(core, request, r);
        assert(checked.report.rejected_targets == distinct(gate));
    }
}

/// Where no target is at fault, nothing is rejected before the targets are looked up.
pub proof fn lemma_faultless(core: DocumentCore, request: ApprovedTemplateEditRequestV1)
    requires
        request.targets@.len() > 0,
        forall|i: int, reason: RejectReason|
            0 <= i < request.targets@.len() ==> !#[trigger] at_fault(core, request, i, reason),
    ensures
        gate_rejections(core, request).len() == 0,
{
    let gate = gate_rejections(core, request);
    if gate.len() > 0 {
        let r = gate[0];
        assert(gate.contains(r));
        lemma_gate(core, request, r);
    }
}

/// Whether the `f`th field bears the given identifier, and none before it does.
pub open spec fn first_field(fields: Seq<FieldEntry>, field_id: u32, f: int) -> bool {
    &&& 0 <= f < fields.len()
    &&& fields[f].field.field_id == field_id
    &&& forall|k: int| 0 <= k < f ==> (#[trigger] fields[k]).field.field_id != field_id
}

/// The search for a field ends at the first from `from` on that bears the identifier.
proof fn lemma_field_from(fields: Seq<FieldEntry>, field_id: u32, from: int)
    requires
        0 <= from,
    ensures
        match field_from(fields, field_id, from) {
            Some(f) => from <= f < fields.len() && fields[f].field.field_id == field_id && (forall|
                k: int,
            |
                from <= k < f ==> (#[trigger] fields[k]).field.field_id != field_id),
            None => forall|k: int|
                from <= k < fields.len() ==> (#[trigger] fields[k]).field.field_id != field_id,
        },
    decreases fields.len() - from,
{
    if from < fields.len() {
        lemma_field_from(fields, field_id, from + 1);
    }
}

/// The field that is found is the first that bears the identifier, and none is found exactly where
/// none does.
pub proof fn law_first_field_is_found(fields: Seq<FieldEntry>, field_id: u32, f: int)
    ensures
        field_from(fields, field_id, 0) == Some(f) <==> first_field(fields, field_id, f),
        field_from(fields, field_id, 0) is None <==> forall|k: int|
            0 <= k < fields.len() ==> (#[trigger] fields[k]).field.field_id != field_id,
{
    lemma_field_from(fields, field_id, 0);
    if let Some(found) = field_from(fields, field_id, 0) {
        if first_field(fields, field_id, f) {
            if f < found {
                assert(fields[f].field.field_id != field_id);
            }
            if found < f {
                assert(fields[found].field.field_id != field_id);
            }
        }
    }
}

/// Whether the first table of the body that bears a number is `table`.
pub open spec fn table_found(document: Document, table_no: usize, table: Table) -> bool {
    exists|g: int| #[trigger]
        first_bearing(document.tables@, table_no, g) && leads_to(
            document,
            document.tables@[g],
            table,
        )
}

/// Whether coordinates lie in the grid of a table.
pub open spec fn in_grid(table: Table, row: u16, col: u16) -> bool {
    row < table.row_count && col < table.col_count
}

/// Whether some cell is anchored at the given coordinates.
pub open spec fn some_anchored(cells: Seq<Cell>, row: u16, col: u16) -> bool {
    exists|k: int| 0 <= k < cells.len() && (#[trigger] cells[k]).row == row && cells[k].col == col
}

/// Whether some cell lies over the given coordinates.
pub open spec fn some_over(cells: Seq<Cell>, row: u16, col: u16) -> bool {
    exists|k: int|
        0 <= k < cells.len() && lies_over(#[trigger] cells[k], row as int, col as int)
}

/// Whether the `i`th cell of `table` is the one that a table number and coordinates name.
pub open spec fn cell_found(
    document: Document,
    table_no: usize,
    row: u16,
    col: u16,
    table: Table,
    i: int,
) -> bool {
    &&& table_found(document, table_no, table)
    &&& in_grid(table, row, col)
    &&& first_anchored(table.cells@, row, col, i)
}

/// Whether a text is neither of the expected hash nor the value that is to be written.
pub open spec fn wrong_text(text: Seq<char>, expected: Seq<char>, value: Seq<char>) -> bool {
    text_hash_of(text) != expected && text != value
}

/// Whether a paragraph of the body holds nothing but text: no U+FFFC, and no control but definitions
/// of sections and of columns.
pub open spec fn text_only(paragraph: Paragraph) -> bool {
    &&& !has_stand_in(paragraph.text@)
    &&& forall|i: int|
        0 <= i < paragraph.controls@.len() ==> (#[trigger] paragraph.controls@[i])
            == Control::SectionDef || paragraph.controls@[i] == Control::ColumnDef
}

/// Whether a cell holds one text and nothing else: one paragraph, without any control or U+FFFC.
pub open spec fn one_text(cell: Cell) -> bool {
    cell.paragraphs@.len() == 1 && !holds_object(cell.paragraphs@[0])
}

/// Whether a field is to be refused for the given reason.
pub open spec fn field_refused(
    core: DocumentCore,
    field_id: u32,
    expected: Seq<char>,
    value: Seq<char>,
    reason: RejectReason,
) -> bool {
    match reason {
        RejectReason::UnknownField => forall|k: int|
            0 <= k < core.fields@.len() ==> (#[trigger] core.fields@[k]).field.field_id != field_id,
        RejectReason::UnsupportedField => exists|f: int| #[trigger]
            first_field(core.fields@, field_id, f) && (core.fields@[f].field.ctrl_id == 0
                || !core.fields@[f].editable_in_form),
        RejectReason::TargetTextMismatch => exists|f: int| #[trigger]
            first_field(core.fields@, field_id, f) && core.fields@[f].field.ctrl_id != 0
                && core.fields@[f].editable_in_form && wrong_text(
                core.fields@[f].value@,
                expected,
                value,
            ),
        _ => false,
    }
}

/// Whether a paragraph of the body is to be refused for the given reason.
pub open spec fn body_refused(
    core: DocumentCore,
    s: usize,
    p: usize,
    expected: Seq<char>,
    label: Seq<char>,
    value: Seq<char>,
    reason: RejectReason,
) -> bool {
    let sections = core.document.sections@;
    let paragraphs = sections[s as int].paragraphs@;
    let paragraph = paragraphs[p as int];
    let there = s < sections.len() && p < paragraphs.len();
    match reason {
        RejectReason::UnknownBodyParagraph => !there,
        RejectReason::MixedBodyContent => there && !text_only(paragraph),
        RejectReason::TargetTextMismatch => there && text_only(paragraph) && wrong_text(
            paragraph.text@,
            expected,
            value,
        ),
        RejectReason::AdjacentLabelMismatch => there && text_only(paragraph) && !wrong_text(
            paragraph.text@,
            expected,
            value,
        ) && digest_text(body_adjacent_bytes(paragraphs, p as int)) != label,
        _ => false,
    }
}

/// Whether a cell that is named by its anchor and keeps its style is to be refused for the given
/// reason.
pub open spec fn cell_refused(
    core: DocumentCore,
    table_no: usize,
    row: u16,
    col: u16,
    expected: Seq<char>,
    label: Seq<char>,
    value: Seq<char>,
    max_lines: usize,
    overflow: Option<OverflowMeasure>,
    reason: RejectReason,
) -> bool {
    let document = core.document;
    match reason {
        RejectReason::UnknownOrNestedTable => forall|table: Table|
            !#[trigger] table_found(document, table_no, table),
        RejectReason::InvalidCellAddress => exists|table: Table| #[trigger]
            table_found(document, table_no, table) && (!in_grid(table, row, col) || !some_anchored(
                table.cells@,
                row,
                col,
            ) && !some_over(table.cells@, row, col)),
        RejectReason::CoveredMergedCell => exists|table: Table| #[trigger]
            table_found(document, table_no, table) && in_grid(table, row, col) && !some_anchored(
                table.cells@,
                row,
                col,
            ) && some_over(table.cells@, row, col),
        RejectReason::MixedCellContent => exists|table: Table, i: int| #[trigger]
            cell_found(document, table_no, row, col, table, i) && !one_text(table.cells@[i]),
        RejectReason::TargetTextMismatch => exists|table: Table, i: int| #[trigger]
            cell_found(document, table_no, row, col, table, i) && one_text(table.cells@[i])
                && wrong_text(cell_text_of(table.cells@[i]), expected, value),
        RejectReason::AdjacentLabelMismatch => exists|table: Table, i: int| #[trigger]
            cell_found(document, table_no, row, col, table, i) && one_text(table.cells@[i])
                && !wrong_text(cell_text_of(table.cells@[i]), expected, value) && digest_text(
                adjacent_bytes(table, row, col),
            ) != label,
        RejectReason::ConfirmedOverflow => exists|table: Table, i: int| #[trigger]
            cell_found(document, table_no, row, col, table, i) && one_text(table.cells@[i])
                && !wrong_text(cell_text_of(table.cells@[i]), expected, value) && digest_text(
                adjacent_bytes(table, row, col),
            ) == label && overflow is Some && overflow->0.lines > max_lines,
        _ => false,
    }
}

/// Whether a target is to be refused for the given reason once it is looked up, where `overflow` is
/// how far its value overflows its cell.
pub open spec fn refused_for(
    core: DocumentCore,
    target: ApprovedEditTargetV1,
    overflow: Option<OverflowMeasure>,
    reason: RejectReason,
) -> bool {
    match target {
        ApprovedEditTargetV1::NativeField { field_id, expected_value_hash, value, .. } =>
            field_refused(core, field_id, expected_value_hash@, value@, reason),
        ApprovedEditTargetV1::BodyPlaceholder {
            section_index,
            paragraph_index,
            expected_text_hash,
            adjacent_label_digest,
            value,
            ..
        } => body_refused(
            core,
            section_index,
            paragraph_index,
            expected_text_hash@,
            adjacent_label_digest@,
            value@,
            reason,
        ),
        ApprovedEditTargetV1::TableCell {
            table_index,
            row,
            col,
            expected_text_hash,
            adjacent_label_digest,
            merged_anchor,
            value,
            max_lines,
            keep_style,
            ..
        } => if keep_style && merged_anchor.row == row && merged_anchor.col == col {
            cell_refused(
                core,
                table_index,
                row,
                col,
                expected_text_hash@,
                adjacent_label_digest@,
                value@,
                max_lines,
                overflow,
                reason,
            )
        } else {
            reason == RejectReason::UnsafeCellOptions
        },
    }
}

/// One number and one anchor name one cell.
pub proof fn lemma_one_found(
    document: Document,
    table_no: usize,
    row: u16,
    col: u16,
    a: Table,
    i: int,
    b: Table,
    j: int,
)
    ensures
        table_found(document, table_no, a) && table_found(document, table_no, b) ==> a == b,
        cell_found(document, table_no, row, col, a, i) && cell_found(
            document,
            table_no,
            row,
            col,
            b,
            j,
        ) ==> i == j,
{
    if table_found(document, table_no, a) && table_found(document, table_no, b) {
        let g = choose|g: int| #[trigger]
            first_bearing(document.tables@, table_no, g) && leads_to(
                document,
                document.tables@[g],
                a,
            );
        let h = choose|h: int| #[trigger]
            first_bearing(document.tables@, table_no, h) && leads_to(
                document,
                document.tables@[h],
                b,
            );
        if g < h {
            assert(!bears(document.tables@[g], table_no));
        }
        if h < g {
            assert(!bears(document.tables@[h], table_no));
        }
        assert(g == h);
        let cells = a.cells@;
        if first_anchored(cells, row, col, i) && first_anchored(cells, row, col, j) {
            if i < j {
                assert(!(cells[i].row == row && cells[i].col == col));
            }
            if j < i {
                assert(!(cells[j].row == row && cells[j].col == col));
            }
        }
    }
}

/// What coordinates find, by the table that the number names.
pub proof fn lemma_found(document: Document, table_no: usize, row: u16, col: u16)
    ensures
        match place_of(document, table_no, row, col) {
            Ok(place) => {
                &&& table_at(
                    document,
                    place.grid.section as int,
                    place.grid.paragraph as int,
                    place.grid.control as int,
                ) is Some
                &&& cell_found(
                    document,
                    table_no,
                    row,
                    col,
                    table_at(
                        document,
                        place.grid.section as int,
                        place.grid.paragraph as int,
                        place.grid.control as int,
                    )->0,
                    place.cell,
                )
                &&& exists|g: int| #[trigger]
                    first_bearing(document.tables@, table_no, g) && place.grid
                        == document.tables@[g]
            },
            Err(CellFault::UnknownTable { .. }) => forall|table: Table|
                !#[trigger] table_found(document, table_no, table),
            Err(CellFault::NotATable) => forall|table: Table|
                !#[trigger] table_found(document, table_no, table),
            Err(CellFault::OutOfGrid { .. }) => exists|table: Table| #[trigger]
                table_found(document, table_no, table) && !in_grid(table, row, col),
            Err(CellFault::Covered { .. }) => exists|table: Table| #[trigger]
                table_found(document, table_no, table) && in_grid(table, row, col)
                    && !some_anchored(table.cells@, row, col) && some_over(table.cells@, row, col),
            Err(CellFault::Vacant) => exists|table: Table| #[trigger]
                table_found(document, table_no, table) && in_grid(table, row, col)
                    && !some_anchored(table.cells@, row, col) && !some_over(table.cells@, row, col),
        },
{
    if exists|g: int| #[trigger] first_bearing(document.tables@, table_no, g) {
        let g = choose|g: int| #[trigger] first_bearing(document.tables@, table_no, g);
        let grid = document.tables@[g];
        law_number_leads_to_no_table(document, table_no, row, col, g);
        if exists|table: Table| #[trigger] leads_to(document, grid, table) {
            let table = choose|table: Table| #[trigger] leads_to(document, grid, table);
            assert(table_found(document, table_no, table));
            let cells = table.cells@;
            assert(table_at(
                document,
                grid.section as int,
                grid.paragraph as int,
                grid.control as int,
            ) == Some(table));
            if in_grid(table, row, col) && some_anchored(cells, row, col) {
                lemma_anchored(cells, row, col, 0);
                let i = anchored_from(cells, row, col, 0)->0;
                assert(first_anchored(cells, row, col, i));
                law_coordinates_find_their_cell(document, table_no, row, col, g, table, i);
            } else if in_grid(table, row, col) && some_over(cells, row, col) {
                law_first_covering_cell_is_found(cells, row, col, 0);
                let i = covering_from(cells, row, col, 0)->0;
                law_first_covering_cell_is_found(cells, row, col, i);
                law_coordinates_find_their_cell(document, table_no, row, col, g, table, i);
            } else {
                law_coordinates_find_their_cell(document, table_no, row, col, g, table, 0);
            }
        } else {
            assert forall|table: Table| !#[trigger] table_found(document, table_no, table) by {
                if table_found(document, table_no, table) {
                    let h = choose|h: int| #[trigger]
                        first_bearing(document.tables@, table_no, h) && leads_to(
                            document,
                            document.tables@[h],
                            table,
                        );
                    if g < h {
                        assert(!bears(document.tables@[g], table_no));
                    }
                    if h < g {
                        assert(!bears(document.tables@[h], table_no));
                    }
                    assert(leads_to(document, grid, table));
                }
            }
        }
    } else {
        lemma_no_bearer(document, table_no, row, col);
    }
}

/// Where no grid is the first to bear a number, none bears it.
proof fn lemma_no_bearer(document: Document, table_no: usize, row: u16, col: u16)
    requires
        forall|g: int| !#[trigger] first_bearing(document.tables@, table_no, g),
    ensures
        place_of(document, table_no, row, col) matches Err(CellFault::UnknownTable { .. }),
{
    lemma_numbered_from(document.tables@, table_no, 0);
    if let Some(g) = numbered_from(document.tables@, table_no, 0) {
        assert(first_bearing(document.tables@, table_no, g));
    }
}

} // verus!
