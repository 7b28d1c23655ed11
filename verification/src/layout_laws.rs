//! What layout is asked about a request.

use vstd::prelude::*;

use crate::finding_laws::{
    first_anchored, first_bearing, law_coordinates_find_their_cell, law_resolved_cell_is_described,
    leads_to,
};
use crate::laws::{
    law_changed_paragraphs_ascend, law_pages_are_asked_for_what_passes, lemma_resolutions,
};
use crate::listing_laws::earlier;
use crate::lookup_laws::{all_found, faultless, lemma_all_stand_in, lemma_decided, stands_in};
use crate::model::{Cell, Document, DocumentCore, Table, TableGrid};
use crate::preflight::{
    ascending, before, dry_run, gate_rejections, measured_edit, resolution_of, LayoutQuery,
};
use crate::report::{OverflowMeasure, RejectReason, RejectionModel};
use crate::request::{ApprovedEditTargetV1, ApprovedTemplateEditRequestV1};
use crate::table::{measured_size, place_of, resolved_at, table_at, width_left, CellPlace};
use crate::text_laws::{law_safe_identifiers, plain_identifier};
use crate::verdict_laws::{
    at_fault, form_of, is_due, lemma_faultless, lemma_found, lemma_gate, lemma_one_found,
    table_found,
};

verus! {

/// Whether a request has the shape of one, whatever its length in bytes.
pub open spec fn well_formed_request(request: ApprovedTemplateEditRequestV1) -> bool {
    &&& request.schema_version == 1
    &&& plain_identifier(request.template_id@)
    &&& 1 <= request.targets@.len() <= 100
}

/// Layout is asked about a request exactly where nothing but an overflow can still refuse it: it
/// has the shape of one, no target is at fault, and none is to be refused where no value overflows.
pub proof fn law_when_layout_is_asked(core: DocumentCore, request: ApprovedTemplateEditRequestV1)
    ensures
        dry_run(core, request) is Some <==> well_formed_request(request) && faultless(core, request)
            && all_found(core, request, None),
{
    law_safe_identifiers(request.template_id@);
    lemma_decided(core, request, None);
    if well_formed_request(request) {
        if faultless(core, request) {
            lemma_faultless(core, request);
        } else {
            let (i, reason) = choose|i: int, reason: RejectReason|
                0 <= i < request.targets@.len() && #[trigger] at_fault(core, request, i, reason);
            let r = RejectionModel { target_id: form_of(request.targets@[i]).id, reason };
            assert(is_due(core, request, r));
            lemma_gate(core, request, r);
            assert(gate_rejections(core, request).contains(r));
        }
    }
}

/// Layout is asked for the pages of the paragraphs that the targets stand in, in the order of the
/// document and each once.
pub proof fn law_which_paragraphs_layout_is_asked_about(
    core: DocumentCore,
    request: ApprovedTemplateEditRequestV1,
)
    requires
        dry_run(core, request) is Some,
    ensures
        ({
            let targets = request.targets@;
            let pairs = ascending(dry_run(core, request)->0.changed_paragraphs);
            &&& forall|pair: (usize, usize)| #[trigger]
                pairs.contains(pair) <==> exists|i: int|
                    0 <= i < targets.len() && stands_in(core, #[trigger] targets[i], pair)
            &&& forall|k: int, l: int|
                0 <= k < l < pairs.len() ==> earlier(
                    (#[trigger] pairs[k]).0 as int,
                    pairs[k].1 as int,
                    (#[trigger] pairs[l]).0 as int,
                    pairs[l].1 as int,
                )
        }),
{
    let targets = request.targets@;
    let all = dry_run(core, request)->0.changed_paragraphs;
    let pairs = ascending(all);
    law_changed_paragraphs_ascend(all);
    assert forall|pair: (usize, usize)| #[trigger] pairs.contains(pair) <==> exists|i: int|
        0 <= i < targets.len() && stands_in(core, #[trigger] targets[i], pair) by {
        lemma_all_stand_in(core, targets, None, pair);
        assert(ascending(all).contains(pair) <==> all.contains(pair));
    }
    assert forall|k: int, l: int| 0 <= k < l < pairs.len() implies earlier(
        (#[trigger] pairs[k]).0 as int,
        pairs[k].1 as int,
        (#[trigger] pairs[l]).0 as int,
        pairs[l].1 as int,
    ) by {
        assert(before(pairs[k], pairs[l]));
    }
}

/// Layout is asked to measure a value exactly where the first target is a cell: the value of that
/// target, in the cell that it names.
pub proof fn law_which_cell_layout_measures(
    core: DocumentCore,
    request: ApprovedTemplateEditRequestV1,
    g: int,
    table: Table,
    i: int,
)
    requires
        dry_run(core, request) is Some,
    ensures
        measured_edit(dry_run(core, request)->0.edits) is Some <==> request.targets@[0]
            is TableCell,
        request.targets@[0] matches ApprovedEditTargetV1::TableCell {
            table_index,
            row,
            col,
            value,
            ..
        } ==> (first_bearing(core.document.tables@, table_index, g) && leads_to(
            core.document,
            core.document.tables@[g],
            table,
        ) && first_anchored(table.cells@, row, col, i) && table.cells@.len() <= usize::MAX ==> {
            let (cell, measured) = measured_edit(dry_run(core, request)->0.edits)->0;
            &&& measured == value@
            &&& cell == resolved_at(
                core.document,
                CellPlace { grid: core.document.tables@[g], cell: i },
            )
            &&& cell.section_index == core.document.tables@[g].section
            &&& cell.paragraph_index == core.document.tables@[g].paragraph
            &&& cell.control_index == core.document.tables@[g].control
            &&& cell.cell_index == i
        }),
{
    let targets = request.targets@;
    lemma_resolutions(core, targets, None);
    let one = resolution_of(core, targets[0], None);
    assert(one.edits.len() == 1);
    if let ApprovedEditTargetV1::TableCell { table_index, row, col, .. } = targets[0] {
        if first_bearing(core.document.tables@, table_index, g) && leads_to(
            core.document,
            core.document.tables@[g],
            table,
        ) && first_anchored(table.cells@, row, col, i) && table.cells@.len() <= usize::MAX {
            assert(table_found(core.document, table_index, table));
            lemma_found(core.document, table_index, row, col);
            let place = place_of(core.document, table_index, row, col)->Ok_0;
            let found = table_at(
                core.document,
                place.grid.section as int,
                place.grid.paragraph as int,
                place.grid.control as int,
            )->0;
            lemma_one_found(
                core.document,
                table_index,
                row,
                col,
                table,
                i,
                found,
                place.cell,
            );
            law_coordinates_find_their_cell(core.document, table_index, row, col, g, table, i);
            law_resolved_cell_is_described(core.document, table_index, row, col, g, table, i);
        }
    }
}

/// Pages are asked for exactly where the request passes with the overflow that was measured, as far
/// as its targets decide: it has the shape of one, none is at fault, and none is to be refused.
pub proof fn law_pages_are_due_for_what_passes(
    core: DocumentCore,
    request: ApprovedTemplateEditRequestV1,
    query: LayoutQuery,
    overflow: Option<OverflowMeasure>,
)
    requires
        query.asks_about(core, request),
    ensures
        query.pages_due(overflow) <==> well_formed_request(request) && faultless(core, request)
            && all_found(core, request, overflow),
{
    let targets = request.targets@;
    law_when_layout_is_asked(core, request);
    law_safe_identifiers(request.template_id@);
    if well_formed_request(request) && faultless(core, request) {
        lemma_faultless(core, request);
        core.lemma_gate_open(request);
        lemma_decided(core, request, overflow);
        lemma_decided(core, request, None);
        law_pages_are_asked_for_what_passes(core, request, overflow);
    }
}

/// The size in which a value is measured is the base size of the shape that its cell starts with,
/// and 1000 where the place holds no cell, the cell no paragraph, the paragraph no shape, or the
/// document none of that number.
pub proof fn law_measured_size(
    document: Document,
    grid: TableGrid,
    table: Table,
    i: int,
    shape: int,
)
    requires
        leads_to(document, grid, table),
    ensures
        ({
            let size = measured_size(
                document,
                grid.section as int,
                grid.paragraph as int,
                grid.control as int,
                i,
            );
            let named = 0 <= i < table.cells@.len() && table.cells@[i].paragraphs@.len() > 0
                && table.cells@[i].paragraphs@[0].char_shape_ids@.len() > 0
                && table.cells@[i].paragraphs@[0].char_shape_ids@[0] == shape;
            &&& named && shape < document.char_shape_sizes@.len() ==> size
                == document.char_shape_sizes@[shape]
            &&& named && shape >= document.char_shape_sizes@.len() ==> size == 1000
            &&& !(0 <= i < table.cells@.len()) ==> size == 1000
            &&& 0 <= i < table.cells@.len() && table.cells@[i].paragraphs@.len() == 0 ==> size
                == 1000
            &&& 0 <= i < table.cells@.len() && table.cells@[i].paragraphs@.len() > 0
                && table.cells@[i].paragraphs@[0].char_shape_ids@.len() == 0 ==> size == 1000
        }),
{
}

/// The width that is left for a text and the padding beside it make up the width of the cell, as far
/// as an `i32` can express it.
pub proof fn law_width_left(cell: Cell, horizontal_padding: i16)
    ensures
        width_left(cell, horizontal_padding) + horizontal_padding <= cell.width,
        width_left(cell, horizontal_padding) < i32::MAX ==> width_left(cell, horizontal_padding)
            + horizontal_padding == cell.width,
{
}

} // verus!
