//! What the answer to an inspection says, member by member.

use vstd::prelude::*;

use crate::answer_laws::{lemma_members, says, says_only};
use crate::inspect::{
    anchor_tree, blocked_tree, bodies_tree, body_tree, cell_address_tree, cell_tree, cells_tree,
    field_tree, fields_tree, format_text, inspection_tree, protection_tree, BodyModel, CellModel,
    FieldModel, InspectionModel, ProtectionModel,
};
use crate::json::{number, object, JsonTree};
use crate::protection::ProtectionReason;
use crate::table::BlockedReason;

verus! {

/// A list of fields lists each.
proof fn lemma_fields(all: Seq<FieldModel>)
    ensures
        fields_tree(all) == JsonTree::List(Seq::new(all.len(), |i: int| field_tree(all[i]))),
{
    assert(fields_tree(all)->List_0 =~= Seq::new(all.len(), |i: int| field_tree(all[i])));
}

/// A list of body paragraphs lists each.
proof fn lemma_bodies(all: Seq<BodyModel>)
    ensures
        bodies_tree(all) == JsonTree::List(Seq::new(all.len(), |i: int| body_tree(all[i]))),
{
    assert(bodies_tree(all)->List_0 =~= Seq::new(all.len(), |i: int| body_tree(all[i])));
}

/// A list of cells lists each.
proof fn lemma_cells(all: Seq<CellModel>)
    ensures
        cells_tree(all) == JsonTree::List(Seq::new(all.len(), |i: int| cell_tree(all[i]))),
{
    assert(cells_tree(all)->List_0 =~= Seq::new(all.len(), |i: int| cell_tree(all[i])));
}

/// A list of what blocks a cell lists each by its name.
proof fn lemma_blocked(all: Seq<BlockedReason>)
    ensures
        blocked_tree(all) == JsonTree::List(
            Seq::new(all.len(), |i: int| JsonTree::Text(all[i].text())),
        ),
{
    assert(blocked_tree(all)->List_0 =~= Seq::new(
        all.len(),
        |i: int| JsonTree::Text(all[i].text()),
    ));
}

/// A field is answered with its identifier, whether it can be edited, and the hash of its value.
pub proof fn law_answered_field(field: FieldModel)
    ensures
        says(field_tree(field), "fieldId"@, number(field.field_id as nat)),
        says(field_tree(field), "editable"@, JsonTree::Bool(field.editable)),
        says(field_tree(field), "valueHash"@, JsonTree::Text(field.value_hash)),
        says_only(field_tree(field), seq!["fieldId"@, "editable"@, "valueHash"@]),
{
    reveal_strlit("fieldId");
    reveal_strlit("editable");
    reveal_strlit("valueHash");
    let members = seq![
        ("fieldId"@, number(field.field_id as nat)),
        ("editable"@, JsonTree::Bool(field.editable)),
        ("valueHash"@, JsonTree::Text(field.value_hash)),
    ];
    assert(field_tree(field) == object(members));
    lemma_members(members);
    assert(says(object(members), members[0].0, members[0].1));
    assert(says(object(members), members[1].0, members[1].1));
    assert(says(object(members), members[2].0, members[2].1));
    let keys = seq![
        "fieldId"@,
        "editable"@,
        "valueHash"@,
    ];
    assert(Seq::new(members.len(), |i: int| members[i].0) =~= keys);
}

/// A body paragraph is answered with its place and the hashes of its text and of those beside it.
pub proof fn law_answered_paragraph(entry: BodyModel)
    ensures
        says(body_tree(entry), "sectionIndex"@, number(entry.section_index as nat)),
        says(body_tree(entry), "paragraphIndex"@, number(entry.paragraph_index as nat)),
        says(body_tree(entry), "textHash"@, JsonTree::Text(entry.text_hash)),
        says(body_tree(entry), "adjacentLabelDigest"@, JsonTree::Text(entry.adjacent_label_digest)),
        says_only(
            body_tree(entry),
            seq!["sectionIndex"@, "paragraphIndex"@, "textHash"@, "adjacentLabelDigest"@],
        ),
{
    reveal_strlit("sectionIndex");
    reveal_strlit("paragraphIndex");
    reveal_strlit("textHash");
    reveal_strlit("adjacentLabelDigest");
    let members = seq![
        ("sectionIndex"@, number(entry.section_index as nat)),
        ("paragraphIndex"@, number(entry.paragraph_index as nat)),
        ("textHash"@, JsonTree::Text(entry.text_hash)),
        ("adjacentLabelDigest"@, JsonTree::Text(entry.adjacent_label_digest)),
    ];
    assert(body_tree(entry) == object(members));
    lemma_members(members);
    assert(says(object(members), members[0].0, members[0].1));
    assert(says(object(members), members[1].0, members[1].1));
    assert(says(object(members), members[2].0, members[2].1));
    assert(says(object(members), members[3].0, members[3].1));
    let keys = seq![
        "sectionIndex"@,
        "paragraphIndex"@,
        "textHash"@,
        "adjacentLabelDigest"@,
    ];
    assert(Seq::new(members.len(), |i: int| members[i].0) =~= keys);
}

/// An anchor is answered with its row and its column.
pub proof fn law_answered_anchor(row: u16, col: u16)
    ensures
        says(anchor_tree(row, col), "row"@, number(row as nat)),
        says(anchor_tree(row, col), "col"@, number(col as nat)),
        says_only(anchor_tree(row, col), seq!["row"@, "col"@]),
{
    reveal_strlit("row");
    reveal_strlit("col");
    let members = seq![
        ("row"@, number(row as nat)),
        ("col"@, number(col as nat)),
    ];
    assert(anchor_tree(row, col) == object(members));
    lemma_members(members);
    assert(says(object(members), members[0].0, members[0].1));
    assert(says(object(members), members[1].0, members[1].1));
    assert(Seq::new(members.len(), |i: int| members[i].0) =~= seq!["row"@, "col"@]);
}

/// The place of a cell is answered with its section, its paragraph, its control and its own index.
pub proof fn law_answered_cell_place(cell: CellModel)
    ensures
        says(cell_address_tree(cell), "sectionIndex"@, number(cell.section_index as nat)),
        says(cell_address_tree(cell), "paragraphIndex"@, number(cell.paragraph_index as nat)),
        says(cell_address_tree(cell), "controlIndex"@, number(cell.control_index as nat)),
        says(cell_address_tree(cell), "cellIndex"@, number(cell.cell_index as nat)),
        says_only(
            cell_address_tree(cell),
            seq!["sectionIndex"@, "paragraphIndex"@, "controlIndex"@, "cellIndex"@],
        ),
{
    reveal_strlit("sectionIndex");
    reveal_strlit("paragraphIndex");
    reveal_strlit("controlIndex");
    reveal_strlit("cellIndex");
    let members = seq![
        ("sectionIndex"@, number(cell.section_index as nat)),
        ("paragraphIndex"@, number(cell.paragraph_index as nat)),
        ("controlIndex"@, number(cell.control_index as nat)),
        ("cellIndex"@, number(cell.cell_index as nat)),
    ];
    assert(cell_address_tree(cell) == object(members));
    lemma_members(members);
    assert(says(object(members), members[0].0, members[0].1));
    assert(says(object(members), members[1].0, members[1].1));
    assert(says(object(members), members[2].0, members[2].1));
    assert(says(object(members), members[3].0, members[3].1));
    let keys = seq![
        "sectionIndex"@,
        "paragraphIndex"@,
        "controlIndex"@,
        "cellIndex"@,
    ];
    assert(Seq::new(members.len(), |i: int| members[i].0) =~= keys);
}

/// A cell is answered with the number of its table, its anchor and spans, the hashes of its text and of
/// the cells around it, what blocks it, whether anything does, and its place.
pub proof fn law_answered_cell(cell: CellModel)
    ensures
        says(cell_tree(cell), "tableIndex"@, number(cell.table_index as nat)),
        says(cell_tree(cell), "row"@, number(cell.row as nat)),
        says(cell_tree(cell), "col"@, number(cell.col as nat)),
        says(cell_tree(cell), "rowSpan"@, number(cell.row_span as nat)),
        says(cell_tree(cell), "colSpan"@, number(cell.col_span as nat)),
        says(cell_tree(cell), "mergedAnchor"@, anchor_tree(cell.row, cell.col)),
        says(cell_tree(cell), "textHash"@, JsonTree::Text(cell.text_hash)),
        says(cell_tree(cell), "adjacentLabelDigest"@, JsonTree::Text(cell.adjacent_label_digest)),
        says(cell_tree(cell), "safe"@, JsonTree::Bool(cell.blocked_reasons.len() == 0)),
        says(
            cell_tree(cell),
            "blockedReasons"@,
            JsonTree::List(
                Seq::new(
                    cell.blocked_reasons.len(),
                    |i: int| JsonTree::Text(cell.blocked_reasons[i].text()),
                ),
            ),
        ),
        says(cell_tree(cell), "resolvedAddress"@, cell_address_tree(cell)),
        says_only(
            cell_tree(cell),
            seq![
                "tableIndex"@,
                "row"@,
                "col"@,
                "rowSpan"@,
                "colSpan"@,
                "mergedAnchor"@,
                "textHash"@,
                "adjacentLabelDigest"@,
                "safe"@,
                "blockedReasons"@,
                "resolvedAddress"@,
            ],
        ),
{
    reveal_strlit("tableIndex");
    reveal_strlit("row");
    reveal_strlit("col");
    reveal_strlit("rowSpan");
    reveal_strlit("colSpan");
    reveal_strlit("mergedAnchor");
    reveal_strlit("textHash");
    reveal_strlit("adjacentLabelDigest");
    reveal_strlit("safe");
    reveal_strlit("blockedReasons");
    reveal_strlit("resolvedAddress");
    let members = seq![
        ("tableIndex"@, number(cell.table_index as nat)),
        ("row"@, number(cell.row as nat)),
        ("col"@, number(cell.col as nat)),
        ("rowSpan"@, number(cell.row_span as nat)),
        ("colSpan"@, number(cell.col_span as nat)),
        ("mergedAnchor"@, anchor_tree(cell.row, cell.col)),
        ("textHash"@, JsonTree::Text(cell.text_hash)),
        ("adjacentLabelDigest"@, JsonTree::Text(cell.adjacent_label_digest)),
        ("safe"@, JsonTree::Bool(cell.blocked_reasons.len() == 0)),
        ("blockedReasons"@, blocked_tree(cell.blocked_reasons)),
        ("resolvedAddress"@, cell_address_tree(cell)),
    ];
    lemma_blocked(cell.blocked_reasons);
    assert(cell_tree(cell) == object(members));
    lemma_members(members);
    assert(says(object(members), members[0].0, members[0].1));
    assert(says(object(members), members[1].0, members[1].1));
    assert(says(object(members), members[2].0, members[2].1));
    assert(says(object(members), members[3].0, members[3].1));
    assert(says(object(members), members[4].0, members[4].1));
    assert(says(object(members), members[5].0, members[5].1));
    assert(says(object(members), members[6].0, members[6].1));
    assert(says(object(members), members[7].0, members[7].1));
    assert(says(object(members), members[8].0, members[8].1));
    assert(says(object(members), members[9].0, members[9].1));
    assert(says(object(members), members[10].0, members[10].1));
    let keys = seq![
        "tableIndex"@,
        "row"@,
        "col"@,
        "rowSpan"@,
        "colSpan"@,
        "mergedAnchor"@,
        "textHash"@,
        "adjacentLabelDigest"@,
        "safe"@,
        "blockedReasons"@,
        "resolvedAddress"@,
    ];
    assert(Seq::new(members.len(), |i: int| members[i].0) =~= keys);
}

/// The protection of a document is answered with its status, its counts, and the names of what speaks
/// for it.
pub proof fn law_answered_protection(protection: ProtectionModel)
    ensures
        says(protection_tree(protection), "schemaVersion"@, number(1)),
        says(protection_tree(protection), "status"@, JsonTree::Text(protection.status.text())),
        says(protection_tree(protection), "pageCount"@, number(protection.page_count as nat)),
        says(
            protection_tree(protection),
            "tableCount"@,
            number(protection.stats.table_count as nat),
        ),
        says(
            protection_tree(protection),
            "nestedTableCount"@,
            number(protection.stats.nested_table_count as nat),
        ),
        says(
            protection_tree(protection),
            "pictureCount"@,
            number(protection.stats.picture_count as nat),
        ),
        says(
            protection_tree(protection),
            "shapeCount"@,
            number(protection.stats.shape_count as nat),
        ),
        says(
            protection_tree(protection),
            "reasons"@,
            JsonTree::List(
                Seq::new(
                    protection.reasons.len(),
                    |i: int| JsonTree::Text(protection.reasons[i].text()),
                ),
            ),
        ),
        says_only(
            protection_tree(protection),
            seq![
                "schemaVersion"@,
                "status"@,
                "pageCount"@,
                "tableCount"@,
                "nestedTableCount"@,
                "pictureCount"@,
                "shapeCount"@,
                "reasons"@,
            ],
        ),
{
    reveal_strlit("schemaVersion");
    reveal_strlit("status");
    reveal_strlit("pageCount");
    reveal_strlit("tableCount");
    reveal_strlit("nestedTableCount");
    reveal_strlit("pictureCount");
    reveal_strlit("shapeCount");
    reveal_strlit("reasons");
    let members = seq![
        ("schemaVersion"@, number(1)),
        ("status"@, JsonTree::Text(protection.status.text())),
        ("pageCount"@, number(protection.page_count as nat)),
        ("tableCount"@, number(protection.stats.table_count as nat)),
        ("nestedTableCount"@, number(protection.stats.nested_table_count as nat)),
        ("pictureCount"@, number(protection.stats.picture_count as nat)),
        ("shapeCount"@, number(protection.stats.shape_count as nat)),
        ("reasons"@, JsonTree::List(
                protection.reasons.map_values(
                    |reason: ProtectionReason| JsonTree::Text(reason.text()),
                ),
            )),
    ];
    assert(protection.reasons.map_values(|reason: ProtectionReason| JsonTree::Text(reason.text()))
        =~= Seq::new(
        protection.reasons.len(),
        |i: int| JsonTree::Text(protection.reasons[i].text()),
    ));
    assert(protection_tree(protection) == object(members));
    lemma_members(members);
    assert(says(object(members), members[0].0, members[0].1));
    assert(says(object(members), members[1].0, members[1].1));
    assert(says(object(members), members[2].0, members[2].1));
    assert(says(object(members), members[3].0, members[3].1));
    assert(says(object(members), members[4].0, members[4].1));
    assert(says(object(members), members[5].0, members[5].1));
    assert(says(object(members), members[6].0, members[6].1));
    assert(says(object(members), members[7].0, members[7].1));
    let keys = seq![
        "schemaVersion"@,
        "status"@,
        "pageCount"@,
        "tableCount"@,
        "nestedTableCount"@,
        "pictureCount"@,
        "shapeCount"@,
        "reasons"@,
    ];
    assert(Seq::new(members.len(), |i: int| members[i].0) =~= keys);
}

/// An inspection is answered with the format, the digest of the structure, the counts, the protection,
/// and the fields, body paragraphs and cells, each list in its order, and whether one was cut.
pub proof fn law_inspection_answer(found: InspectionModel)
    ensures
        says(inspection_tree(found), "schemaVersion"@, number(1)),
        says(inspection_tree(found), "format"@, JsonTree::Text(format_text(found.format))),
        says(inspection_tree(found), "structureDigest"@, JsonTree::Text(found.structure_digest)),
        says(inspection_tree(found), "pageCount"@, number(found.protection.page_count as nat)),
        says(inspection_tree(found), "sectionCount"@, number(found.section_count)),
        says(inspection_tree(found), "paragraphCount"@, number(found.paragraph_count as nat)),
        says(inspection_tree(found), "topLevelTableCount"@, number(found.top_level_table_count)),
        says(
            inspection_tree(found),
            "nestedTableCount"@,
            number(found.protection.stats.nested_table_count as nat),
        ),
        says(
            inspection_tree(found),
            "pictureCount"@,
            number(found.protection.stats.picture_count as nat),
        ),
        says(
            inspection_tree(found),
            "shapeCount"@,
            number(found.protection.stats.shape_count as nat),
        ),
        says(inspection_tree(found), "binDataCount"@, number(found.bin_data_count as nat)),
        says(inspection_tree(found), "protection"@, protection_tree(found.protection)),
        says(
            inspection_tree(found),
            "nativeFields"@,
            JsonTree::List(
                Seq::new(found.native_fields.len(), |i: int| field_tree(found.native_fields[i])),
            ),
        ),
        says(
            inspection_tree(found),
            "bodyCandidates"@,
            JsonTree::List(
                Seq::new(found.body_candidates.len(), |i: int| body_tree(found.body_candidates[i])),
            ),
        ),
        says(
            inspection_tree(found),
            "tableCells"@,
            JsonTree::List(
                Seq::new(found.table_cells.len(), |i: int| cell_tree(found.table_cells[i])),
            ),
        ),
        says(inspection_tree(found), "truncated"@, JsonTree::Bool(found.truncated)),
        says_only(
            inspection_tree(found),
            seq![
                "schemaVersion"@,
                "format"@,
                "structureDigest"@,
                "pageCount"@,
                "sectionCount"@,
                "paragraphCount"@,
                "topLevelTableCount"@,
                "nestedTableCount"@,
                "pictureCount"@,
                "shapeCount"@,
                "binDataCount"@,
                "protection"@,
                "nativeFields"@,
                "bodyCandidates"@,
                "tableCells"@,
                "truncated"@,
            ],
        ),
{
    reveal_strlit("schemaVersion");
    reveal_strlit("format");
    reveal_strlit("structureDigest");
    reveal_strlit("pageCount");
    reveal_strlit("sectionCount");
    reveal_strlit("paragraphCount");
    reveal_strlit("topLevelTableCount");
    reveal_strlit("nestedTableCount");
    reveal_strlit("pictureCount");
    reveal_strlit("shapeCount");
    reveal_strlit("binDataCount");
    reveal_strlit("protection");
    reveal_strlit("nativeFields");
    reveal_strlit("bodyCandidates");
    reveal_strlit("tableCells");
    reveal_strlit("truncated");
    let members = seq![
        ("schemaVersion"@, number(1)),
        ("format"@, JsonTree::Text(format_text(found.format))),
        ("structureDigest"@, JsonTree::Text(found.structure_digest)),
        ("pageCount"@, number(found.protection.page_count as nat)),
        ("sectionCount"@, number(found.section_count)),
        ("paragraphCount"@, number(found.paragraph_count as nat)),
        ("topLevelTableCount"@, number(found.top_level_table_count)),
        ("nestedTableCount"@, number(found.protection.stats.nested_table_count as nat)),
        ("pictureCount"@, number(found.protection.stats.picture_count as nat)),
        ("shapeCount"@, number(found.protection.stats.shape_count as nat)),
        ("binDataCount"@, number(found.bin_data_count as nat)),
        ("protection"@, protection_tree(found.protection)),
        ("nativeFields"@, fields_tree(found.native_fields)),
        ("bodyCandidates"@, bodies_tree(found.body_candidates)),
        ("tableCells"@, cells_tree(found.table_cells)),
        ("truncated"@, JsonTree::Bool(found.truncated)),
    ];
    lemma_fields(found.native_fields);
    lemma_bodies(found.body_candidates);
    lemma_cells(found.table_cells);
    assert(inspection_tree(found) == object(members));
    lemma_members(members);
    assert(says(object(members), members[0].0, members[0].1));
    assert(says(object(members), members[1].0, members[1].1));
    assert(says(object(members), members[2].0, members[2].1));
    assert(says(object(members), members[3].0, members[3].1));
    assert(says(object(members), members[4].0, members[4].1));
    assert(says(object(members), members[5].0, members[5].1));
    assert(says(object(members), members[6].0, members[6].1));
    assert(says(object(members), members[7].0, members[7].1));
    assert(says(object(members), members[8].0, members[8].1));
    assert(says(object(members), members[9].0, members[9].1));
    assert(says(object(members), members[10].0, members[10].1));
    assert(says(object(members), members[11].0, members[11].1));
    assert(says(object(members), members[12].0, members[12].1));
    assert(says(object(members), members[13].0, members[13].1));
    assert(says(object(members), members[14].0, members[14].1));
    assert(says(object(members), members[15].0, members[15].1));
    let keys = seq![
        "schemaVersion"@,
        "format"@,
        "structureDigest"@,
        "pageCount"@,
        "sectionCount"@,
        "paragraphCount"@,
        "topLevelTableCount"@,
        "nestedTableCount"@,
        "pictureCount"@,
        "shapeCount"@,
        "binDataCount"@,
        "protection"@,
        "nativeFields"@,
        "bodyCandidates"@,
        "tableCells"@,
        "truncated"@,
    ];
    assert(Seq::new(members.len(), |i: int| members[i].0) =~= keys);
}

} // verus!
