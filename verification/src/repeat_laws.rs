//! What holds of a request that is made again after it was applied.

use vstd::prelude::*;

use crate::apply::{
    plan_of, script_of, starts_with, steps_of, ActionModel, ApplyStart, RunModel, RunPhase,
    StepModel,
};
use crate::apply_laws::{
    answers_left, carried_out, law_applied_request_changes_nothing, law_edit_writes_its_value,
    lemma_carried_out, place_written, text_at, with_step, with_steps, WrittenPlace,
};
use crate::digest_laws::{
    alike_cell, alike_cells, alike_control, alike_documents, alike_frame, alike_paragraph,
    alike_paragraphs, law_structure_digest_ignores_text, lemma_paragraphs_alike_themselves,
};
use crate::edit::FailureModel;
use crate::laws::{
    current_text, law_accepted_edits_match_targets, lemma_none_rejected, lemma_resolutions,
};
use crate::label::{adjacent_bytes, beside, body_neighbour_bytes, neighbour_bytes, Side};
use crate::model::{Cell, Document, DocumentCore, FieldEntry, Table};
use crate::preflight::{
    field_from, form_rejections, form_rejections_at, gate_rejections, preflight_of, protected,
    rejected_if, resolution_of, value_fault, LayoutModel, PreflightModel,
};
use crate::report::RejectReason;
use crate::request::{ApprovedEditTargetV1, EncodedRequest};
use crate::table::{
    anchored_from, cell_of, cell_text_of, covering_from, holds_mixed, joined, layout_control,
    lemma_anchored, mixed, place_of, table_at, CellFault, CellPlace,
};
use crate::text::{trimmed, unsafe_control, OBJECT_REPLACEMENT};

verus! {

/// Whether an open document differs in nothing but texts from what it was, and is not protected.
pub open spec fn same_but_texts(before: DocumentCore, after: DocumentCore) -> bool {
    &&& !protected(after)
    &&& alike_documents(before.document, after.document)
}

/// The gates do not see texts.
proof fn lemma_gates_stay_open(
    before: DocumentCore,
    after: DocumentCore,
    encoded: EncodedRequest,
)
    requires
        same_but_texts(before, after),
        gate_rejections(before, encoded.request).len() == 0,
    ensures
        gate_rejections(after, encoded.request).len() == 0,
{
    law_structure_digest_ignores_text(before, after);
}

/// Whether a check passed.
pub open spec fn passes(
    core: DocumentCore,
    request_json: Seq<char>,
    encoded: EncodedRequest,
    layout: LayoutModel,
) -> bool {
    preflight_of(core, request_json, Ok(encoded), layout) matches Ok(checked) && checked.report.ok
}

/// Whether a request passes a check under the same token as before, and is to change nothing, so
/// that applying it with that token starts with an empty plan.
pub open spec fn passes_unchanged(
    before: PreflightModel,
    core: DocumentCore,
    request_json: Seq<char>,
    encoded: EncodedRequest,
    layout: LayoutModel,
) -> bool {
    preflight_of(core, request_json, Ok(encoded), layout) matches Ok(checked) && {
        &&& checked.report.ok
        &&& checked.token == before.token
        &&& plan_of(checked).updated == 0
        &&& plan_of(checked).script.len() == 0
        &&& forall|start: ApplyStart| #[trigger]
            starts_with(start, checked, before.token->0) ==> (start matches ApplyStart::Ready(plan)
                && plan@ == plan_of(checked))
    }
}

/// A request passes again where none of its targets is rejected and each finds its value.
proof fn lemma_passes_unchanged(
    before: DocumentCore,
    after: DocumentCore,
    request_json: Seq<char>,
    encoded: EncodedRequest,
    layout: LayoutModel,
    later: LayoutModel,
)
    requires
        passes(before, request_json, encoded, layout),
        same_but_texts(before, after),
        forall|i: int|
            0 <= i < encoded.request.targets@.len() ==> {
                &&& resolution_of(
                    after,
                    #[trigger] encoded.request.targets@[i],
                    later.overflow,
                ).rejected.len() == 0
                &&& current_text(after, encoded.request.targets@[i])
                    == encoded.request.targets@[i].value_text()
            },
    ensures
        passes_unchanged(
            preflight_of(before, request_json, Ok(encoded), layout)->Ok_0,
            after,
            request_json,
            encoded,
            later,
        ),
{
    lemma_gates_stay_open(before, after, encoded);
    law_structure_digest_ignores_text(before, after);
    lemma_none_rejected(after, encoded.request.targets@, later.overflow);
    law_applied_request_changes_nothing(after, request_json, encoded, later);
}

/// Whether the field that `target` names holds the value of the target.
pub open spec fn field_written(
    before: DocumentCore,
    after: DocumentCore,
    target: ApprovedEditTargetV1,
) -> bool {
    target matches ApprovedEditTargetV1::NativeField { field_id, value, .. } && (field_from(
        before.fields@,
        field_id,
        0,
    ) matches Some(f) ==> after.fields@[f].value@ == value@)
}

/// Whether `after` is `before` with the values of fields written that `targets` name.
pub open spec fn fields_written(
    before: DocumentCore,
    after: DocumentCore,
    targets: Seq<ApprovedEditTargetV1>,
) -> bool {
    &&& same_but_texts(before, after)
    &&& after.fields@.len() == before.fields@.len()
    &&& forall|f: int|
        0 <= f < before.fields@.len() ==> {
            &&& (#[trigger] after.fields@[f]).field == before.fields@[f].field
            &&& after.fields@[f].editable_in_form == before.fields@[f].editable_in_form
        }
    &&& forall|i: int|
        0 <= i < targets.len() ==> field_written(before, after, #[trigger] targets[i])
}

/// Fields are found by their identifiers alone.
proof fn lemma_same_field(a: Seq<FieldEntry>, b: Seq<FieldEntry>, field_id: u32, from: int)
    requires
        0 <= from,
        a.len() == b.len(),
        forall|f: int| 0 <= f < a.len() ==> (#[trigger] b[f]).field == a[f].field,
    ensures
        field_from(a, field_id, from) == field_from(b, field_id, from),
        field_from(a, field_id, from) matches Some(f) ==> from <= f < a.len(),
    decreases a.len() - from,
{
    if from < a.len() {
        assert(b[from].field == a[from].field);
        lemma_same_field(a, b, field_id, from + 1);
    }
}

/// A request for fields that was applied passes again, under the same token, and changes nothing.
pub proof fn law_written_fields_are_accepted_again(
    before: DocumentCore,
    after: DocumentCore,
    request_json: Seq<char>,
    encoded: EncodedRequest,
    layout: LayoutModel,
    later: LayoutModel,
)
    requires
        passes(before, request_json, encoded, layout),
        fields_written(before, after, encoded.request.targets@),
    ensures
        passes_unchanged(
            preflight_of(before, request_json, Ok(encoded), layout)->Ok_0,
            after,
            request_json,
            encoded,
            later,
        ),
{
    let targets = encoded.request.targets@;
    lemma_resolutions(before, targets, layout.overflow);
    assert forall|i: int| 0 <= i < targets.len() implies {
        &&& resolution_of(after, #[trigger] targets[i], later.overflow).rejected.len() == 0
        &&& current_text(after, targets[i]) == targets[i].value_text()
    } by {
        assert(resolution_of(before, targets[i], layout.overflow).rejected.len() == 0);
        if let ApprovedEditTargetV1::NativeField { field_id, .. } = targets[i] {
            lemma_same_field(before.fields@, after.fields@, field_id, 0);
            let f = field_from(before.fields@, field_id, 0)->0;
            assert(after.fields@[f].field == before.fields@[f].field);
        }
    }
    lemma_passes_unchanged(before, after, request_json, encoded, layout, later);
}

/// Where the form of no target is at fault, that of each is in order.
proof fn lemma_form(targets: Seq<ApprovedEditTargetV1>, n: nat, i: int)
    requires
        0 <= i < n,
        form_rejections(targets, n).len() == 0,
    ensures
        form_rejections_at(targets, i).len() == 0,
    decreases n,
{
    if i < n - 1 {
        lemma_form(targets, (n - 1) as nat, i);
    }
}

/// A value that passed holds no stand-in for a control.
proof fn lemma_plain_value(
    core: DocumentCore,
    request_json: Seq<char>,
    encoded: EncodedRequest,
    layout: LayoutModel,
    i: int,
)
    requires
        passes(core, request_json, encoded, layout),
        0 <= i < encoded.request.targets@.len(),
    ensures
        !encoded.request.targets@[i].value_text().contains(OBJECT_REPLACEMENT),
{
    let targets = encoded.request.targets@;
    lemma_form(targets, targets.len(), i);
    let target = targets[i];
    assert(rejected_if(value_fault(target), target, RejectReason::InvalidValue).len() == 0);
    assert(!value_fault(target));
    let value = target.value_text();
    if value.contains(OBJECT_REPLACEMENT) {
        let k = choose|k: int| 0 <= k < value.len() && value[k] == OBJECT_REPLACEMENT;
        assert(unsafe_control(value[k]));
    }
}

/// Whether `after` is `before` but for the text of one paragraph of the body, which is `text`. Texts
/// of other sections and the shapes of characters may differ too.
pub open spec fn body_reads(
    before: DocumentCore,
    after: DocumentCore,
    section_index: usize,
    paragraph_index: usize,
    text: Seq<char>,
) -> bool {
    let old_paragraphs = before.document.sections@[section_index as int].paragraphs@;
    let new_paragraphs = after.document.sections@[section_index as int].paragraphs@;
    &&& alike_documents(before.document, after.document)
    &&& forall|q: int|
        0 <= q < old_paragraphs.len() ==> (#[trigger] new_paragraphs[q]).text@ == if q
            == paragraph_index {
            text
        } else {
            old_paragraphs[q].text@
        }
}

/// Whether `after` is `before` with `value` written to a paragraph of the body, and not protected.
pub open spec fn body_written(
    before: DocumentCore,
    after: DocumentCore,
    section_index: usize,
    paragraph_index: usize,
    value: Seq<char>,
) -> bool {
    &&& !protected(after)
    &&& body_reads(before, after, section_index, paragraph_index, value)
}

/// A request for a body paragraph that was applied passes again, under the same token, and changes
/// nothing.
pub proof fn law_written_body_is_accepted_again(
    before: DocumentCore,
    after: DocumentCore,
    request_json: Seq<char>,
    encoded: EncodedRequest,
    layout: LayoutModel,
    later: LayoutModel,
)
    requires
        passes(before, request_json, encoded, layout),
        encoded.request.targets@.len() == 1,
        encoded.request.targets@[0] matches ApprovedEditTargetV1::BodyPlaceholder {
            section_index,
            paragraph_index,
            value,
            ..
        } && body_written(before, after, section_index, paragraph_index, value@),
    ensures
        passes_unchanged(
            preflight_of(before, request_json, Ok(encoded), layout)->Ok_0,
            after,
            request_json,
            encoded,
            later,
        ),
{
    let targets = encoded.request.targets@;
    let target = targets[0];
    lemma_resolutions(before, targets, layout.overflow);
    lemma_plain_value(before, request_json, encoded, layout, 0);
    assert(resolution_of(before, target, layout.overflow).rejected.len() == 0);
    if let ApprovedEditTargetV1::BodyPlaceholder { section_index, paragraph_index, .. } = target {
        let s = section_index as int;
        let p = paragraph_index as int;
        assert(before.document.sections@[s].section_def == after.document.sections@[s].section_def);
        let a = before.document.sections@[s].paragraphs@;
        let b = after.document.sections@[s].paragraphs@;
        assert(alike_paragraphs(a, b));
        assert(alike_paragraph(a[p], b[p]));
        assert forall|i: int| 0 <= i < b[p].controls@.len() implies layout_control(
            #[trigger] b[p].controls@[i],
        ) by {
            assert(layout_control(a[p].controls@[i]));
            assert(alike_control(a[p].controls@[i], b[p].controls@[i]));
        }
        if p > 0 {
            assert(alike_paragraph(a[p - 1], b[p - 1]));
            assert(b[p - 1].text@ == a[p - 1].text@);
        }
        if p + 1 < a.len() {
            assert(alike_paragraph(a[p + 1], b[p + 1]));
            assert(b[p + 1].text@ == a[p + 1].text@);
        }
        assert(body_neighbour_bytes(a, p - 1) == body_neighbour_bytes(b, p - 1));
        assert(body_neighbour_bytes(a, p + 1) == body_neighbour_bytes(b, p + 1));
        assert(b[p].text@ == target.value_text());
    }
    assert(resolution_of(after, target, later.overflow).rejected.len() == 0);
    lemma_passes_unchanged(before, after, request_json, encoded, layout, later);
}

/// What a document engine owes to the text of one paragraph of the body of `before`: a step that it
/// takes there does to the text what the step says, and leaves the structure of the document and
/// the other texts of the section as they are; beginning and ending a batch and discarding the
/// snapshot leave all of it as it is.
pub open spec fn edits_body_text(
    engine: spec_fn(DocumentCore, ActionModel) -> (DocumentCore, Option<FailureModel>),
    before: DocumentCore,
    section_index: usize,
    paragraph_index: usize,
) -> bool {
    forall|d: DocumentCore, a: ActionModel, text: Seq<char>|
        #![trigger engine(d, a), body_reads(before, d, section_index, paragraph_index, text)]
        {
            &&& body_reads(before, d, section_index, paragraph_index, text)
            &&& engine(d, a).1 is None || a is DiscardSnapshot
            &&& !(a is RestoreSnapshot)
            &&& a matches ActionModel::Edit(step) ==> place_written(step) == (WrittenPlace::Body {
                section_index,
                paragraph_index,
            })
        } ==> body_reads(
            before,
            engine(d, a).0,
            section_index,
            paragraph_index,
            match a {
                ActionModel::Edit(step) => with_step(text, step),
                _ => text,
            },
        )
}

/// The steps that a run has still to take.
spec fn steps_left(run: RunModel) -> Seq<StepModel> {
    match run.phase {
        RunPhase::BeginBatch => run.plan.script,
        RunPhase::Edit(i) => run.plan.script.skip(i as int),
        _ => seq![],
    }
}

/// A run of steps is its first step and then the others.
proof fn lemma_first_step(text: Seq<char>, step: StepModel, others: Seq<StepModel>)
    ensures
        with_steps(text, seq![step] + others) == with_steps(with_step(text, step), others),
    decreases others.len(),
{
    let all = seq![step] + others;
    if others.len() == 0 {
        assert(all.drop_last() =~= Seq::empty());
        assert(with_steps(text, all.drop_last()) == text);
    } else {
        lemma_first_step(text, step, others.drop_last());
        assert(all.drop_last() =~= seq![step] + others.drop_last());
    }
}

/// A run in which nothing fails leaves the text that its steps make.
proof fn lemma_run_writes(
    run: RunModel,
    document: DocumentCore,
    engine: spec_fn(DocumentCore, ActionModel) -> (DocumentCore, Option<FailureModel>),
    before: DocumentCore,
    section_index: usize,
    paragraph_index: usize,
    text: Seq<char>,
)
    requires
        run.valid(),
        edits_body_text(engine, before, section_index, paragraph_index),
        body_reads(before, document, section_index, paragraph_index, text),
        forall|k: int|
            0 <= k < run.plan.script.len() ==> place_written(#[trigger] run.plan.script[k]) == (
            WrittenPlace::Body { section_index, paragraph_index }),
        carried_out(run, document, engine).run.failure is None,
    ensures
        body_reads(
            before,
            carried_out(run, document, engine).document,
            section_index,
            paragraph_index,
            with_steps(text, steps_left(run)),
        ),
    decreases answers_left(run),
{
    lemma_carried_out(run, document, engine);
    if let Some(action) = run.action() {
        let answer = engine(document, action);
        let next = run.next(answer.1);
        lemma_carried_out(next, answer.0, engine);
        let script = run.plan.script;
        let read = match action {
            ActionModel::Edit(step) => with_step(text, step),
            _ => text,
        };
        assert(body_reads(before, answer.0, section_index, paragraph_index, read));
        lemma_run_writes(next, answer.0, engine, before, section_index, paragraph_index, read);
        if let RunPhase::Edit(i) = run.phase {
            lemma_first_step(text, script[i as int], script.skip(i + 1));
            assert(script.skip(i as int) =~= seq![script[i as int]] + script.skip(i + 1));
            assert(script.skip(script.len() as int) =~= Seq::empty());
        }
        assert(script.skip(0) =~= script);
        assert(script.len() == 0 ==> script =~= Seq::empty());
    }
}

/// Applying a request for a body paragraph twice is applying it once: on any engine that edits the
/// text as the steps say, a run in which nothing fails leaves exactly the value in the paragraph;
/// and where the document is not protected afterwards, the same request passes again under the
/// same token, and changes nothing.
pub proof fn law_applied_body_passes_again(
    before: DocumentCore,
    request_json: Seq<char>,
    encoded: EncodedRequest,
    layout: LayoutModel,
    later: LayoutModel,
    snapshot: u32,
    engine: spec_fn(DocumentCore, ActionModel) -> (DocumentCore, Option<FailureModel>),
)
    requires
        passes(before, request_json, encoded, layout),
        encoded.request.targets@.len() == 1,
        encoded.request.targets@[0] matches ApprovedEditTargetV1::BodyPlaceholder {
            section_index,
            paragraph_index,
            ..
        } && edits_body_text(engine, before, section_index, paragraph_index),
        carried_out(
            RunModel::begun(
                plan_of(preflight_of(before, request_json, Ok(encoded), layout)->Ok_0),
                snapshot,
            ),
            before,
            engine,
        ).run.failure is None,
    ensures
        ({
            let checked = preflight_of(before, request_json, Ok(encoded), layout)->Ok_0;
            let after = carried_out(
                RunModel::begun(plan_of(checked), snapshot),
                before,
                engine,
            ).document;
            &&& text_at(after, encoded.request.targets@[0])
                == encoded.request.targets@[0].value_text()
            &&& !protected(after) ==> passes_unchanged(
                checked,
                after,
                request_json,
                encoded,
                later,
            )
        }),
{
    let targets = encoded.request.targets@;
    let target = targets[0];
    let checked = preflight_of(before, request_json, Ok(encoded), layout)->Ok_0;
    let run = RunModel::begun(plan_of(checked), snapshot);
    let after = carried_out(run, before, engine).document;
    law_edit_writes_its_value(before, request_json, encoded, layout, 0);
    law_accepted_edits_match_targets(before, request_json, encoded, layout);
    let edit = checked.edits[0];
    assert(checked.edits.drop_last() =~= Seq::empty());
    assert(script_of(checked.edits.drop_last()) == Seq::<StepModel>::empty());
    assert(script_of(checked.edits) =~= steps_of(edit));
    lemma_resolutions(before, targets, layout.overflow);
    assert(resolution_of(before, target, layout.overflow).rejected.len() == 0);
    if let ApprovedEditTargetV1::BodyPlaceholder { section_index, paragraph_index, .. } = target {
        let s = section_index as int;
        let p = paragraph_index as int;
        let text = text_at(before, target);
        assert forall|i: int| 0 <= i < before.document.sections@.len() implies alike_paragraphs(
            (#[trigger] before.document.sections@[i]).paragraphs@,
            before.document.sections@[i].paragraphs@,
        ) by {
            lemma_paragraphs_alike_themselves(before.document.sections@[i].paragraphs@);
        }
        assert(body_reads(before, before, section_index, paragraph_index, text));
        lemma_run_writes(run, before, engine, before, section_index, paragraph_index, text);
        assert(body_reads(before, after, section_index, paragraph_index, target.value_text()));
        assert(before.document.sections@[s].section_def == after.document.sections@[s].section_def);
        assert(after.document.sections@[s].paragraphs@[p].text@ == target.value_text());
        if !protected(after) {
            law_written_body_is_accepted_again(
                before,
                after,
                request_json,
                encoded,
                layout,
                later,
            );
        }
    }
}

/// Whether `after` is `before` with `value` written to the only paragraph of a cell.
pub open spec fn cell_written(
    before: DocumentCore,
    after: DocumentCore,
    place: CellPlace,
    value: Seq<char>,
) -> bool {
    let old_cells = table_there(before.document, place).cells@;
    let new_cells = table_there(after.document, place).cells@;
    &&& same_but_texts(before, after)
    &&& after.document.tables@ == before.document.tables@
    &&& new_cells[place.cell].paragraphs@[0].text@ == value
    &&& forall|i: int|
        0 <= i < old_cells.len() && i != place.cell ==> cell_text_of(#[trigger] new_cells[i])
            == cell_text_of(old_cells[i])
}

/// The table that a cell stands in.
pub open spec fn table_there(document: Document, place: CellPlace) -> Table {
    table_at(
        document,
        place.grid.section as int,
        place.grid.paragraph as int,
        place.grid.control as int,
    )->0
}

/// Whether a merged cell reaches over one of the coordinates next to its own anchor, so that its
/// text is part of the labels around it.
pub open spec fn borders_itself(table: Table, row: u16, col: u16, cell: int) -> bool {
    exists|side: Side| #[trigger]
        beside(table, row, col, side) matches Some(at) && covering_from(
            table.cells@,
            at.0,
            at.1,
            0,
        ) == Some(cell)
}

/// Cells are found by their anchors and spans alone.
proof fn lemma_same_cells(a: Seq<Cell>, b: Seq<Cell>, row: u16, col: u16, from: int)
    requires
        0 <= from,
        alike_cells(a, b),
    ensures
        anchored_from(a, row, col, from) == anchored_from(b, row, col, from),
        covering_from(a, row, col, from) == covering_from(b, row, col, from),
        covering_from(a, row, col, from) matches Some(i) ==> from <= i < a.len(),
    decreases a.len() - from,
{
    if from < a.len() {
        assert(alike_cell(a[from], b[from]));
        lemma_same_cells(a, b, row, col, from + 1);
    }
}

/// What is at one side of a cell is the same, unless it is the cell that was written to.
proof fn lemma_same_neighbour(a: Table, b: Table, row: u16, col: u16, cell: int, side: Side)
    requires
        alike_frame(a, b),
        alike_cells(a.cells@, b.cells@),
        forall|i: int|
            0 <= i < a.cells@.len() && i != cell ==> cell_text_of(#[trigger] b.cells@[i])
                == cell_text_of(a.cells@[i]),
        !borders_itself(a, row, col, cell),
    ensures
        neighbour_bytes(a, beside(a, row, col, side)) == neighbour_bytes(
            b,
            beside(b, row, col, side),
        ),
{
    assert(beside(a, row, col, side) == beside(b, row, col, side));
    if let Some(at) = beside(a, row, col, side) {
        lemma_same_cells(a.cells@, b.cells@, at.0, at.1, 0);
        if let Some(i) = covering_from(a.cells@, at.0, at.1, 0) {
            assert(i != cell);
            assert(alike_cell(a.cells@[i], b.cells@[i]));
            assert(cell_text_of(b.cells@[i]) == cell_text_of(a.cells@[i]));
        }
    }
}

/// The labels around a cell do not depend on its own text, unless it borders itself.
proof fn lemma_same_labels(a: Table, b: Table, row: u16, col: u16, cell: int)
    requires
        alike_frame(a, b),
        alike_cells(a.cells@, b.cells@),
        forall|i: int|
            0 <= i < a.cells@.len() && i != cell ==> cell_text_of(#[trigger] b.cells@[i])
                == cell_text_of(a.cells@[i]),
        !borders_itself(a, row, col, cell),
    ensures
        adjacent_bytes(a, row, col) == adjacent_bytes(b, row, col),
{
    lemma_same_neighbour(a, b, row, col, cell, Side::Up);
    lemma_same_neighbour(a, b, row, col, cell, Side::Left);
    lemma_same_neighbour(a, b, row, col, cell, Side::Right);
    lemma_same_neighbour(a, b, row, col, cell, Side::Down);
}

/// A table that differs in texts alone stands where it stood.
proof fn lemma_same_table(before: Document, after: Document, place: CellPlace)
    requires
        alike_documents(before, after),
        table_at(
            before,
            place.grid.section as int,
            place.grid.paragraph as int,
            place.grid.control as int,
        ) is Some,
    ensures
        table_at(
            after,
            place.grid.section as int,
            place.grid.paragraph as int,
            place.grid.control as int,
        ) is Some,
        alike_frame(table_there(before, place), table_there(after, place)),
        alike_cells(table_there(before, place).cells@, table_there(after, place).cells@),
{
    let s = place.grid.section as int;
    let p = place.grid.paragraph as int;
    let k = place.grid.control as int;
    assert(before.sections@[s].section_def == after.sections@[s].section_def);
    let a = before.sections@[s].paragraphs@;
    let b = after.sections@[s].paragraphs@;
    assert(alike_paragraph(a[p], b[p]));
    assert(alike_control(a[p].controls@[k], b[p].controls@[k]));
}

/// A request for a cell that was applied passes again, under the same token, and changes nothing;
/// unless its value begins or ends with white space, or the cell borders itself, or the value is
/// now measured to take more lines than it allows.
pub proof fn law_written_cell_is_accepted_again(
    before: DocumentCore,
    after: DocumentCore,
    request_json: Seq<char>,
    encoded: EncodedRequest,
    layout: LayoutModel,
    later: LayoutModel,
)
    requires
        passes(before, request_json, encoded, layout),
        encoded.request.targets@.len() == 1,
        encoded.request.targets@[0] matches ApprovedEditTargetV1::TableCell {
            table_index,
            row,
            col,
            value,
            ..
        } && {
            let place = place_of(before.document, table_index, row, col)->Ok_0;
            &&& cell_written(before, after, place, value@)
            &&& trimmed(value@) == value@
            &&& !borders_itself(table_there(before.document, place), row, col, place.cell)
        },
        later.overflow matches Some(measure) ==> measure.lines
            <= encoded.request.targets@[0].line_limit(),
    ensures
        passes_unchanged(
            preflight_of(before, request_json, Ok(encoded), layout)->Ok_0,
            after,
            request_json,
            encoded,
            later,
        ),
{
    let targets = encoded.request.targets@;
    let target = targets[0];
    lemma_resolutions(before, targets, layout.overflow);
    lemma_plain_value(before, request_json, encoded, layout, 0);
    assert(resolution_of(before, target, layout.overflow).rejected.len() == 0);
    if let ApprovedEditTargetV1::TableCell { table_index, row, col, value, .. } = target {
        let place = place_of(before.document, table_index, row, col)->Ok_0;
        lemma_same_table(before.document, after.document, place);
        let a = table_there(before.document, place);
        let b = table_there(after.document, place);
        lemma_same_cells(a.cells@, b.cells@, row, col, 0);
        lemma_anchored(a.cells@, row, col, 0);
        lemma_same_labels(a, b, row, col, place.cell);
        assert(place_of(after.document, table_index, row, col) == Ok::<_, CellFault>(place));
        let old_cell = a.cells@[place.cell];
        let new_cell = b.cells@[place.cell];
        assert(cell_of(before.document, place) == old_cell);
        assert(cell_of(after.document, place) == new_cell);
        assert(alike_cell(old_cell, new_cell));
        assert(old_cell.paragraphs@.len() == 1);
        assert(alike_paragraph(old_cell.paragraphs@[0], new_cell.paragraphs@[0]));
        assert(!mixed(old_cell.paragraphs@[0]));
        assert(!mixed(new_cell.paragraphs@[0]));
        assert(!holds_mixed(new_cell));
        assert(joined(new_cell.paragraphs@) == value@);
    }
    assert(resolution_of(after, target, later.overflow).rejected.len() == 0);
    lemma_passes_unchanged(before, after, request_json, encoded, layout, later);
}

} // verus!
