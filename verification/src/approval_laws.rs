//! What an accepted request says of the document that it was approved for.

use vstd::prelude::*;

use crate::digest::{digest_text, sha256, structure_bytes};
use crate::encoding_laws::law_equal_digests_are_of_equal_hashes;
use crate::label::{adjacent_bytes, body_adjacent_bytes, text_hash_of};
use crate::label_laws::{
    body_neighbour, body_well_hashed, law_body_labels_are_the_neighbours,
    law_labels_are_one_step_away, law_text_hash_is_of_the_whole_text, one_step, same_beside,
    texts_collide, well_labelled,
};
use crate::laws::{current_text, expected_hash, law_accepted_edits_match_targets};
use crate::lookup_laws::law_what_is_accepted;
use crate::model::{Document, DocumentCore, Paragraph, Table};
use crate::preflight::LayoutModel;
use crate::reading_laws::closed_sections;
use crate::repeat_laws::passes;
use crate::report::RejectReason;
use crate::request::EncodedRequest;
use crate::structure_laws::{law_bytes_are_the_structure, same_documents};
use crate::verdict_laws::{at_fault, cell_found, form_of, one_text, refused_for};

verus! {

/// Where SHA-256 gives two different byte strings one digest.
pub open spec fn bytes_collide(a: Seq<u8>, b: Seq<u8>) -> bool {
    a != b && sha256(a) == sha256(b)
}

/// A target of an accepted request finds the text that was approved: where the hash that it expects
/// is that of some text, its place holds that text in every character, or its value already, unless
/// SHA-256 itself gives two different byte strings one digest.
pub proof fn law_approved_text_is_found(
    core: DocumentCore,
    request_json: Seq<char>,
    encoded: EncodedRequest,
    layout: LayoutModel,
    i: int,
    approved: Seq<char>,
)
    requires
        passes(core, request_json, encoded, layout),
        0 <= i < encoded.request.targets@.len(),
        expected_hash(encoded.request.targets@[i]) == text_hash_of(approved),
    ensures
        ({
            let target = encoded.request.targets@[i];
            let found = current_text(core, target);
            ||| found == approved
            ||| found == form_of(target).value
            ||| texts_collide(found, approved)
        }),
{
    let target = encoded.request.targets@[i];
    law_accepted_edits_match_targets(core, request_json, encoded, layout);
    law_text_hash_is_of_the_whole_text(current_text(core, target), approved);
}

/// An accepted request finds the structure that was approved: where the digest that it expects is
/// that of some document, the open document has the structure of that one, at any depth, unless
/// SHA-256 itself gives two different byte strings one digest. Neither holds a header, a footer or
/// a note.
pub proof fn law_approved_structure_is_found(
    core: DocumentCore,
    request_json: Seq<char>,
    encoded: EncodedRequest,
    layout: LayoutModel,
    approved: Document,
)
    requires
        passes(core, request_json, encoded, layout),
        encoded.request.expected_structure_digest@ == digest_text(structure_bytes(approved)),
        closed_sections(core.document.sections@),
        closed_sections(approved.sections@),
    ensures
        same_documents(core.document, approved) || bytes_collide(
            structure_bytes(core.document),
            structure_bytes(approved),
        ),
{
    law_what_is_accepted(core, request_json, encoded, layout);
    assert(!at_fault(core, encoded.request, 0, RejectReason::StructureMismatch));
    law_equal_digests_are_of_equal_hashes(
        structure_bytes(core.document),
        structure_bytes(approved),
    );
    law_bytes_are_the_structure(core.document, approved);
}

/// A paragraph of the body that is accepted stands between the paragraphs that were approved: they
/// have the approved shapes, styles and hashes of their texts, unless SHA-256 itself gives two
/// different byte strings one digest.
pub proof fn law_approved_paragraphs_are_beside(
    core: DocumentCore,
    request_json: Seq<char>,
    encoded: EncodedRequest,
    layout: LayoutModel,
    i: int,
    approved: Seq<Paragraph>,
    at: int,
)
    requires
        passes(core, request_json, encoded, layout),
        0 <= i < encoded.request.targets@.len(),
        encoded.request.targets@[i] is BodyPlaceholder,
        encoded.request.targets@[i]->BodyPlaceholder_adjacent_label_digest@ == digest_text(
            body_adjacent_bytes(approved, at),
        ),
        body_well_hashed(approved, at - 1),
        body_well_hashed(approved, at + 1),
        ({
            let target = encoded.request.targets@[i];
            let paragraphs = core.document.sections@[target->BodyPlaceholder_section_index as int].paragraphs@;
            let p = target->BodyPlaceholder_paragraph_index as int;
            body_well_hashed(paragraphs, p - 1) && body_well_hashed(paragraphs, p + 1)
        }),
    ensures
        ({
            let target = encoded.request.targets@[i];
            let paragraphs = core.document.sections@[target->BodyPlaceholder_section_index as int].paragraphs@;
            let p = target->BodyPlaceholder_paragraph_index as int;
            ||| body_neighbour(paragraphs, p - 1) == body_neighbour(approved, at - 1)
                && body_neighbour(paragraphs, p + 1) == body_neighbour(approved, at + 1)
            ||| bytes_collide(
                body_adjacent_bytes(paragraphs, p),
                body_adjacent_bytes(approved, at),
            )
        }),
{
    let target = encoded.request.targets@[i];
    let overflow = layout.overflow;
    law_what_is_accepted(core, request_json, encoded, layout);
    assert(!refused_for(core, target, overflow, RejectReason::UnknownBodyParagraph));
    assert(!refused_for(core, target, overflow, RejectReason::MixedBodyContent));
    assert(!refused_for(core, target, overflow, RejectReason::TargetTextMismatch));
    assert(!refused_for(core, target, overflow, RejectReason::AdjacentLabelMismatch));
    let paragraphs = core.document.sections@[target->BodyPlaceholder_section_index as int].paragraphs@;
    let p = target->BodyPlaceholder_paragraph_index as int;
    law_equal_digests_are_of_equal_hashes(
        body_adjacent_bytes(paragraphs, p),
        body_adjacent_bytes(approved, at),
    );
    law_body_labels_are_the_neighbours(paragraphs, p, approved, at);
}

/// A cell that is accepted stands among the cells that were approved: one step away in each
/// direction lies what the approved table shows there, unless SHA-256 itself gives two different
/// byte strings one digest.
pub proof fn law_approved_cells_are_beside(
    core: DocumentCore,
    request_json: Seq<char>,
    encoded: EncodedRequest,
    layout: LayoutModel,
    i: int,
    table: Table,
    cell: int,
    approved: Table,
)
    requires
        passes(core, request_json, encoded, layout),
        0 <= i < encoded.request.targets@.len(),
        encoded.request.targets@[i] is TableCell,
        ({
            let target = encoded.request.targets@[i];
            let row = target->TableCell_row;
            let col = target->TableCell_col;
            &&& cell_found(
                core.document,
                target->TableCell_table_index,
                row,
                col,
                table,
                cell,
            )
            &&& target->TableCell_adjacent_label_digest@ == digest_text(
                adjacent_bytes(approved, row, col),
            )
            &&& well_labelled(table, row, col)
            &&& well_labelled(approved, row, col)
        }),
    ensures
        ({
            let target = encoded.request.targets@[i];
            let row = target->TableCell_row;
            let col = target->TableCell_col;
            ||| forall|rows_down: int, cols_right: int|
                one_step(rows_down, cols_right) ==> #[trigger] same_beside(
                    table,
                    approved,
                    row,
                    col,
                    rows_down,
                    cols_right,
                )
            ||| bytes_collide(
                adjacent_bytes(table, row, col),
                adjacent_bytes(approved, row, col),
            )
        }),
{
    let target = encoded.request.targets@[i];
    let row = target->TableCell_row;
    let col = target->TableCell_col;
    let overflow = layout.overflow;
    law_what_is_accepted(core, request_json, encoded, layout);
    assert(!refused_for(core, target, overflow, RejectReason::UnsafeCellOptions));
    assert(!refused_for(core, target, overflow, RejectReason::MixedCellContent));
    assert(!refused_for(core, target, overflow, RejectReason::TargetTextMismatch));
    assert(!refused_for(core, target, overflow, RejectReason::AdjacentLabelMismatch));
    assert(one_text(table.cells@[cell]));
    assert(digest_text(adjacent_bytes(table, row, col)) == digest_text(
        adjacent_bytes(approved, row, col),
    ));
    law_equal_digests_are_of_equal_hashes(
        adjacent_bytes(table, row, col),
        adjacent_bytes(approved, row, col),
    );
    law_labels_are_one_step_away(table, approved, row, col);
}

} // verus!
